//! Keyboard actions, editable bindings, and their on-disk settings.

use vstd::prelude::*;
use vstd::string::*;
use crate::config_text::{read_table, table_read, toml_text, write_table};
use crate::paths::{beside, plain_name, with_file_name};
use crate::text::{
    ascii_lower, cat3, join, joined, lowered, same, texts, trim, trimmed, words,
    words_of,
};
use crate::text_map::TextMap;

verus! {

/// The part of the window in which the browsing shortcuts are active.
pub const BROWSER_CONTEXT: &'static str = "Browser";

/// The whole window.
pub const WORKSPACE_CONTEXT: &'static str = "Workspace";

/// What a shortcut does.
#[derive(Clone, Copy, PartialEq, Eq, Structural, Debug)]
pub enum Action {
    OpenSelected,
    GoUp,
    GoBack,
    GoForward,
    Reload,
    FocusFilter,
    NewFolder,
    DeleteSelected,
    TogglePreview,
    ToggleHidden,
    DownloadSelected,
    NewTab,
    CloseTab,
    NextTab,
    PrevTab,
    QuitApp,
}

/// An action the keyboard can reach: what it is called and what it is bound to at first.
#[derive(Clone, Copy, Debug)]
pub struct ShortcutDefinition {
    pub id: &'static str,
    pub label: &'static str,
    pub group: &'static str,
    pub default: &'static str,
    pub context: Option<&'static str>,
}

/// Every shortcut, in the order in which the settings show them.
pub open spec fn definitions() -> Seq<ShortcutDefinition> {
    seq![
        ShortcutDefinition {
            id: "open_selected",
            label: "打开所选项目",
            group: "浏览",
            default: "enter",
            context: Some(BROWSER_CONTEXT),
        },
        ShortcutDefinition {
            id: "go_up",
            label: "上一级目录",
            group: "浏览",
            default: "backspace",
            context: Some(BROWSER_CONTEXT),
        },
        ShortcutDefinition {
            id: "go_back",
            label: "后退",
            group: "浏览",
            default: "cmd-[",
            context: Some(BROWSER_CONTEXT),
        },
        ShortcutDefinition {
            id: "go_forward",
            label: "前进",
            group: "浏览",
            default: "cmd-]",
            context: Some(BROWSER_CONTEXT),
        },
        ShortcutDefinition {
            id: "reload",
            label: "刷新",
            group: "浏览",
            default: "cmd-r",
            context: Some(BROWSER_CONTEXT),
        },
        ShortcutDefinition {
            id: "focus_filter",
            label: "过滤当前目录",
            group: "浏览",
            default: "cmd-f",
            context: Some(BROWSER_CONTEXT),
        },
        ShortcutDefinition {
            id: "new_folder",
            label: "新建文件夹",
            group: "文件",
            default: "cmd-shift-n",
            context: Some(BROWSER_CONTEXT),
        },
        ShortcutDefinition {
            id: "delete_selected",
            label: "删除所选项目",
            group: "文件",
            default: "cmd-backspace",
            context: Some(BROWSER_CONTEXT),
        },
        ShortcutDefinition {
            id: "toggle_preview",
            label: "显示或隐藏预览",
            group: "文件",
            default: "space",
            context: Some(BROWSER_CONTEXT),
        },
        ShortcutDefinition {
            id: "toggle_hidden",
            label: "显示或隐藏点文件",
            group: "文件",
            default: "cmd-shift-.",
            context: Some(BROWSER_CONTEXT),
        },
        ShortcutDefinition {
            id: "download_selected",
            label: "下载所选项目",
            group: "文件",
            default: "cmd-d",
            context: Some(BROWSER_CONTEXT),
        },
        ShortcutDefinition {
            id: "new_tab",
            label: "新建标签页",
            group: "标签页与应用",
            default: "cmd-t",
            context: None,
        },
        ShortcutDefinition {
            id: "close_tab",
            label: "关闭标签页",
            group: "标签页与应用",
            default: "cmd-w",
            context: None,
        },
        ShortcutDefinition {
            id: "next_tab",
            label: "下一个标签页",
            group: "标签页与应用",
            default: "cmd-shift-]",
            context: None,
        },
        ShortcutDefinition {
            id: "prev_tab",
            label: "上一个标签页",
            group: "标签页与应用",
            default: "cmd-shift-[",
            context: None,
        },
        ShortcutDefinition {
            id: "quit_app",
            label: "退出应用",
            group: "标签页与应用",
            default: "cmd-q",
            context: None,
        },
    ]
}

/// The action of each shortcut.
pub open spec fn actions() -> Seq<Action> {
    seq![
        Action::OpenSelected,
        Action::GoUp,
        Action::GoBack,
        Action::GoForward,
        Action::Reload,
        Action::FocusFilter,
        Action::NewFolder,
        Action::DeleteSelected,
        Action::TogglePreview,
        Action::ToggleHidden,
        Action::DownloadSelected,
        Action::NewTab,
        Action::CloseTab,
        Action::NextTab,
        Action::PrevTab,
        Action::QuitApp,
    ]
}

/// Every shortcut, in the order in which the settings show them.
pub fn shortcuts() -> (r: Vec<ShortcutDefinition>)
    ensures
        r@ == definitions(),
{
    let r: Vec<ShortcutDefinition> = vec![
        ShortcutDefinition {
            id: "open_selected",
            label: "打开所选项目",
            group: "浏览",
            default: "enter",
            context: Some(BROWSER_CONTEXT),
        },
        ShortcutDefinition {
            id: "go_up",
            label: "上一级目录",
            group: "浏览",
            default: "backspace",
            context: Some(BROWSER_CONTEXT),
        },
        ShortcutDefinition {
            id: "go_back",
            label: "后退",
            group: "浏览",
            default: "cmd-[",
            context: Some(BROWSER_CONTEXT),
        },
        ShortcutDefinition {
            id: "go_forward",
            label: "前进",
            group: "浏览",
            default: "cmd-]",
            context: Some(BROWSER_CONTEXT),
        },
        ShortcutDefinition {
            id: "reload",
            label: "刷新",
            group: "浏览",
            default: "cmd-r",
            context: Some(BROWSER_CONTEXT),
        },
        ShortcutDefinition {
            id: "focus_filter",
            label: "过滤当前目录",
            group: "浏览",
            default: "cmd-f",
            context: Some(BROWSER_CONTEXT),
        },
        ShortcutDefinition {
            id: "new_folder",
            label: "新建文件夹",
            group: "文件",
            default: "cmd-shift-n",
            context: Some(BROWSER_CONTEXT),
        },
        ShortcutDefinition {
            id: "delete_selected",
            label: "删除所选项目",
            group: "文件",
            default: "cmd-backspace",
            context: Some(BROWSER_CONTEXT),
        },
        ShortcutDefinition {
            id: "toggle_preview",
            label: "显示或隐藏预览",
            group: "文件",
            default: "space",
            context: Some(BROWSER_CONTEXT),
        },
        ShortcutDefinition {
            id: "toggle_hidden",
            label: "显示或隐藏点文件",
            group: "文件",
            default: "cmd-shift-.",
            context: Some(BROWSER_CONTEXT),
        },
        ShortcutDefinition {
            id: "download_selected",
            label: "下载所选项目",
            group: "文件",
            default: "cmd-d",
            context: Some(BROWSER_CONTEXT),
        },
        ShortcutDefinition {
            id: "new_tab",
            label: "新建标签页",
            group: "标签页与应用",
            default: "cmd-t",
            context: None,
        },
        ShortcutDefinition {
            id: "close_tab",
            label: "关闭标签页",
            group: "标签页与应用",
            default: "cmd-w",
            context: None,
        },
        ShortcutDefinition {
            id: "next_tab",
            label: "下一个标签页",
            group: "标签页与应用",
            default: "cmd-shift-]",
            context: None,
        },
        ShortcutDefinition {
            id: "prev_tab",
            label: "上一个标签页",
            group: "标签页与应用",
            default: "cmd-shift-[",
            context: None,
        },
        ShortcutDefinition {
            id: "quit_app",
            label: "退出应用",
            group: "标签页与应用",
            default: "cmd-q",
            context: None,
        },
    ];
    assert(r@ =~= definitions());
    r
}

/// Where an id stands among the shortcuts.
pub open spec fn place_of(id: Seq<char>) -> Option<int> {
    if exists|i: int| 0 <= i < definitions().len() && (#[trigger] definitions()[i]).id@ == id {
        Some(
            choose|i: int| 0 <= i < definitions().len() && (#[trigger] definitions()[i]).id@ == id,
        )
    } else {
        None
    }
}

/// Enough of a string to tell two shortcuts apart: its length and both its ends.
spec fn mark(s: Seq<char>) -> (nat, char, char) {
    (s.len(), s[0], s.last())
}

/// No two shortcuts have the same id.
pub proof fn law_ids_differ(i: int, j: int)
    requires
        0 <= i < definitions().len(),
        0 <= j < definitions().len(),
        i != j,
    ensures
        definitions()[i].id@ != definitions()[j].id@,
{
    reveal_strlit("open_selected");
    reveal_strlit("go_up");
    reveal_strlit("go_back");
    reveal_strlit("go_forward");
    reveal_strlit("reload");
    reveal_strlit("focus_filter");
    reveal_strlit("new_folder");
    reveal_strlit("delete_selected");
    reveal_strlit("toggle_preview");
    reveal_strlit("toggle_hidden");
    reveal_strlit("download_selected");
    reveal_strlit("new_tab");
    reveal_strlit("close_tab");
    reveal_strlit("next_tab");
    reveal_strlit("prev_tab");
    reveal_strlit("quit_app");
    let marks: Seq<(nat, char, char)> = seq![
        (13nat, 'o', 'd'),
        (5nat, 'g', 'p'),
        (7nat, 'g', 'k'),
        (10nat, 'g', 'd'),
        (6nat, 'r', 'd'),
        (12nat, 'f', 'r'),
        (10nat, 'n', 'r'),
        (15nat, 'd', 'd'),
        (14nat, 't', 'w'),
        (13nat, 't', 'n'),
        (17nat, 'd', 'd'),
        (7nat, 'n', 'b'),
        (9nat, 'c', 'b'),
        (8nat, 'n', 'b'),
        (8nat, 'p', 'b'),
        (8nat, 'q', 'p'),
    ];
    assert(mark(definitions()[0].id@) == marks[0]);
    assert(mark(definitions()[1].id@) == marks[1]);
    assert(mark(definitions()[2].id@) == marks[2]);
    assert(mark(definitions()[3].id@) == marks[3]);
    assert(mark(definitions()[4].id@) == marks[4]);
    assert(mark(definitions()[5].id@) == marks[5]);
    assert(mark(definitions()[6].id@) == marks[6]);
    assert(mark(definitions()[7].id@) == marks[7]);
    assert(mark(definitions()[8].id@) == marks[8]);
    assert(mark(definitions()[9].id@) == marks[9]);
    assert(mark(definitions()[10].id@) == marks[10]);
    assert(mark(definitions()[11].id@) == marks[11]);
    assert(mark(definitions()[12].id@) == marks[12]);
    assert(mark(definitions()[13].id@) == marks[13]);
    assert(mark(definitions()[14].id@) == marks[14]);
    assert(mark(definitions()[15].id@) == marks[15]);
    assert forall|k: int| 0 <= k < marks.len() implies mark(#[trigger] definitions()[k].id@)
        == marks[k] by {}
}

proof fn lemma_default_marks(i: int, j: int)
    requires
        0 <= i < definitions().len(),
        0 <= j < definitions().len(),
        i != j,
    ensures
        mark(definitions()[i].default@) != mark(definitions()[j].default@),
{
    reveal_strlit("enter");
    reveal_strlit("backspace");
    reveal_strlit("cmd-[");
    reveal_strlit("cmd-]");
    reveal_strlit("cmd-r");
    reveal_strlit("cmd-f");
    reveal_strlit("cmd-shift-n");
    reveal_strlit("cmd-backspace");
    reveal_strlit("space");
    reveal_strlit("cmd-shift-.");
    reveal_strlit("cmd-d");
    reveal_strlit("cmd-t");
    reveal_strlit("cmd-w");
    reveal_strlit("cmd-shift-]");
    reveal_strlit("cmd-shift-[");
    reveal_strlit("cmd-q");
    let marks: Seq<(nat, char, char)> = seq![
        (5nat, 'e', 'r'),
        (9nat, 'b', 'e'),
        (5nat, 'c', '['),
        (5nat, 'c', ']'),
        (5nat, 'c', 'r'),
        (5nat, 'c', 'f'),
        (11nat, 'c', 'n'),
        (13nat, 'c', 'e'),
        (5nat, 's', 'e'),
        (11nat, 'c', '.'),
        (5nat, 'c', 'd'),
        (5nat, 'c', 't'),
        (5nat, 'c', 'w'),
        (11nat, 'c', ']'),
        (11nat, 'c', '['),
        (5nat, 'c', 'q'),
    ];
    assert(mark(definitions()[0].default@) == marks[0]);
    assert(mark(definitions()[1].default@) == marks[1]);
    assert(mark(definitions()[2].default@) == marks[2]);
    assert(mark(definitions()[3].default@) == marks[3]);
    assert(mark(definitions()[4].default@) == marks[4]);
    assert(mark(definitions()[5].default@) == marks[5]);
    assert(mark(definitions()[6].default@) == marks[6]);
    assert(mark(definitions()[7].default@) == marks[7]);
    assert(mark(definitions()[8].default@) == marks[8]);
    assert(mark(definitions()[9].default@) == marks[9]);
    assert(mark(definitions()[10].default@) == marks[10]);
    assert(mark(definitions()[11].default@) == marks[11]);
    assert(mark(definitions()[12].default@) == marks[12]);
    assert(mark(definitions()[13].default@) == marks[13]);
    assert(mark(definitions()[14].default@) == marks[14]);
    assert(mark(definitions()[15].default@) == marks[15]);
    assert forall|k: int| 0 <= k < marks.len() implies mark(#[trigger] definitions()[k].default@)
        == marks[k] by {}
}

/// No two shortcuts have the same binding to begin with.
pub proof fn law_defaults_differ(i: int, j: int)
    requires
        0 <= i < definitions().len(),
        0 <= j < definitions().len(),
        i != j,
    ensures
        definitions()[i].default@ != definitions()[j].default@,
{
    lemma_default_marks(i, j);
}

/// A shortcut stands where its id says.
pub proof fn lemma_place(i: int)
    requires
        0 <= i < definitions().len(),
    ensures
        place_of(definitions()[i].id@) == Some(i),
{
    let id = definitions()[i].id@;
    assert(definitions()[i].id@ == id);
    assert(place_of(id) is Some);
    let k = place_of(id)->0;
    assert(0 <= k < definitions().len() && definitions()[k].id@ == id);
    if k != i {
        law_ids_differ(k, i);
    }
}

/// Finds a shortcut by its id.
fn find(id: &str) -> (r: Option<usize>)
    ensures
        match r {
            Some(i) => i < definitions().len() && place_of(id@) == Some(i as int),
            None => place_of(id@) is None,
        },
{
    let all = shortcuts();
    let mut i: usize = 0;
    while i < all.len()
        invariant
            all@ == definitions(),
            i <= all.len(),
            forall|k: int| 0 <= k < i ==> (#[trigger] definitions()[k]).id@ != id@,
        decreases all.len() - i,
    {
        if same(all[i].id, id) {
            proof {
                lemma_place(i as int);
            }
            return Some(i);
        }
        i = i + 1;
    }
    None
}

/// The action of the shortcut `id`, if there is such a shortcut.
pub open spec fn action_of(id: Seq<char>) -> Option<Action> {
    match place_of(id) {
        Some(i) => Some(actions()[i]),
        None => None,
    }
}

/// The action of the shortcut `id`, if there is such a shortcut.
pub fn action_for(id: &str) -> (r: Option<Action>)
    ensures
        r == action_of(id@),
        match place_of(id@) {
            Some(i) => r == Some(actions()[i]),
            None => r is None,
        },
{
    match find(id) {
        Some(i) => Some(action_at(i)),
        None => None,
    }
}

/// The action of the shortcut at a place.
fn action_at(i: usize) -> (r: Action)
    requires
        i < definitions().len(),
    ensures
        r == actions()[i as int],
{
    let all: Vec<Action> = vec![
        Action::OpenSelected,
        Action::GoUp,
        Action::GoBack,
        Action::GoForward,
        Action::Reload,
        Action::FocusFilter,
        Action::NewFolder,
        Action::DeleteSelected,
        Action::TogglePreview,
        Action::ToggleHidden,
        Action::DownloadSelected,
        Action::NewTab,
        Action::CloseTab,
        Action::NextTab,
        Action::PrevTab,
        Action::QuitApp,
    ];
    all[i]
}

// ── settings ──────────────────────────────────────────────────────────────

/// Which keys each shortcut is bound to.
#[derive(Debug)]
pub struct ShortcutSettings {
    bindings: TextMap,
}

impl View for ShortcutSettings {
    type V = Map<Seq<char>, Seq<char>>;

    closed spec fn view(&self) -> Map<Seq<char>, Seq<char>> {
        self.bindings@
    }
}

impl PartialEq for ShortcutSettings {
    fn eq(&self, other: &ShortcutSettings) -> (r: bool) {
        self.bindings.equals(&other.bindings)
    }
}

impl vstd::std_specs::cmp::PartialEqSpecImpl for ShortcutSettings {
    open spec fn obeys_eq_spec() -> bool {
        true
    }

    open spec fn eq_spec(&self, other: &ShortcutSettings) -> bool {
        self@ == other@
    }
}

impl Eq for ShortcutSettings {

}

/// What a shortcut is bound to at first; nothing for an id that is none.
pub open spec fn default_of(id: Seq<char>) -> Seq<char> {
    match place_of(id) {
        Some(i) => definitions()[i].default@,
        None => Seq::empty(),
    }
}

/// What `id` is bound to: what was set, or else what it is bound to at first.
pub open spec fn binding_in(bindings: Map<Seq<char>, Seq<char>>, id: Seq<char>) -> Seq<char> {
    if bindings.contains_key(id) {
        bindings[id]
    } else {
        default_of(id)
    }
}

/// Every shortcut bound to what it is bound to at first.
pub open spec fn default_map() -> Map<Seq<char>, Seq<char>> {
    Map::new(|id: Seq<char>| place_of(id) is Some, |id: Seq<char>| default_of(id))
}

/// Every shortcut bound to what `table` says, and else to what it is bound to at first.
/// What the table holds under other ids is left out.
pub open spec fn merged(table: Map<Seq<char>, Seq<char>>) -> Map<Seq<char>, Seq<char>> {
    Map::new(|id: Seq<char>| place_of(id) is Some, |id: Seq<char>| binding_in(table, id))
}

/// A keystroke as it was understood: the key without its modifiers, and the whole of it
/// written out again.
#[derive(Debug)]
pub struct Keystroke {
    pub key: String,
    pub text: String,
}

/// What was made of each stroke of each shortcut: its key and its text, or nothing where
/// it could not be understood.
pub open spec fn strokes_of(parsed: Seq<Vec<Option<Keystroke>>>) -> Seq<
    Seq<Option<(Seq<char>, Seq<char>)>>,
> {
    parsed.map_values(
        |row: Vec<Option<Keystroke>>| row@.map_values(|k: Option<Keystroke>| stroke_of(k)),
    )
}

pub open spec fn stroke_of(k: Option<Keystroke>) -> Option<(Seq<char>, Seq<char>)> {
    match k {
        Some(k) => Some((k.key@, k.text@)),
        None => None,
    }
}

/// Whether a stroke was understood and names a key.
pub open spec fn stroke_good(k: Option<(Seq<char>, Seq<char>)>) -> bool {
    k is Some && k.unwrap().0.len() > 0
}

/// A binding in the form in which two of them are compared.
pub open spec fn normal(row: Seq<Option<(Seq<char>, Seq<char>)>>) -> Seq<char> {
    joined(
        row.map_values(|k: Option<(Seq<char>, Seq<char>)>| lowered(k.unwrap().1)),
        " "@,
    )
}

/// The trimmed binding of the shortcut at place `i`.
pub open spec fn value_at(bindings: Map<Seq<char>, Seq<char>>, i: int) -> Seq<char> {
    trimmed(binding_in(bindings, definitions()[i].id@))
}

/// What can be wrong with the shortcut settings or their file.
#[derive(Debug)]
pub enum ConfigError {
    /// A shortcut has no binding.
    Missing { label: &'static str },
    /// A binding is no sequence of keystrokes.
    Invalid { label: &'static str, value: String },
    /// Two shortcuts have the same binding.
    Conflict { previous: &'static str, label: &'static str, value: String },
    Read { path: String, detail: String },
    Parse { path: String, detail: String },
    Render { detail: String },
    CreateDir { path: String, detail: String },
    Write { path: String, detail: String },
}

/// A [`ConfigError`] by what it says.
pub enum ConfigProblem {
    Missing { label: Seq<char> },
    Invalid { label: Seq<char>, value: Seq<char> },
    Conflict { previous: Seq<char>, label: Seq<char>, value: Seq<char> },
    Read { path: Seq<char>, detail: Seq<char> },
    Parse { path: Seq<char>, detail: Seq<char> },
    Render { detail: Seq<char> },
    CreateDir { path: Seq<char>, detail: Seq<char> },
    Write { path: Seq<char>, detail: Seq<char> },
}

impl View for ConfigError {
    type V = ConfigProblem;

    open spec fn view(&self) -> ConfigProblem {
        match *self {
            ConfigError::Missing { label } => ConfigProblem::Missing { label: label@ },
            ConfigError::Invalid { label, value } => ConfigProblem::Invalid {
                label: label@,
                value: value@,
            },
            ConfigError::Conflict { previous, label, value } => ConfigProblem::Conflict {
                previous: previous@,
                label: label@,
                value: value@,
            },
            ConfigError::Read { path, detail } => ConfigProblem::Read {
                path: path@,
                detail: detail@,
            },
            ConfigError::Parse { path, detail } => ConfigProblem::Parse {
                path: path@,
                detail: detail@,
            },
            ConfigError::Render { detail } => ConfigProblem::Render { detail: detail@ },
            ConfigError::CreateDir { path, detail } => ConfigProblem::CreateDir {
                path: path@,
                detail: detail@,
            },
            ConfigError::Write { path, detail } => ConfigProblem::Write {
                path: path@,
                detail: detail@,
            },
        }
    }
}

/// What is shown for a problem.
pub open spec fn problem_text(p: ConfigProblem) -> Seq<char> {
    match p {
        ConfigProblem::Missing { label } => "请为「"@ + label + "」设置快捷键"@,
        ConfigProblem::Invalid { label, value } => "「"@ + label + "」的快捷键格式无效："@
            + value,
        ConfigProblem::Conflict { previous, label, value } => "「"@ + previous + "」与「"@
            + label + "」使用了相同快捷键："@ + value,
        ConfigProblem::Read { path, detail } => "读取 "@ + path + " 失败: "@ + detail,
        ConfigProblem::Parse { path, detail } => "解析 "@ + path + " 失败: "@ + detail,
        ConfigProblem::Render { detail } => "序列化快捷键失败: "@ + detail,
        ConfigProblem::CreateDir { path, detail } => "创建 "@ + path + " 失败: "@ + detail,
        ConfigProblem::Write { path, detail } => "写入 "@ + path + " 失败: "@ + detail,
    }
}

impl ConfigError {
    /// What is shown for the error.
    pub fn message(&self) -> (r: String)
        ensures
            r@ == problem_text(self@),
    {
        match self {
            ConfigError::Missing { label } => cat3("请为「", label, "」设置快捷键"),
            ConfigError::Invalid { label, value } => {
                let mut r = cat3("「", label, "」的快捷键格式无效：");
                r.append(value.as_str());
                r
            },
            ConfigError::Conflict { previous, label, value } => {
                let mut r = cat3("「", previous, "」与「");
                r.append(label);
                r.append("」使用了相同快捷键：");
                r.append(value.as_str());
                r
            },
            ConfigError::Read { path, detail } => {
                let mut r = cat3("读取 ", path.as_str(), " 失败: ");
                r.append(detail.as_str());
                r
            },
            ConfigError::Parse { path, detail } => {
                let mut r = cat3("解析 ", path.as_str(), " 失败: ");
                r.append(detail.as_str());
                r
            },
            ConfigError::Render { detail } => {
                let mut r = "序列化快捷键失败: ".to_owned();
                r.append(detail.as_str());
                r
            },
            ConfigError::CreateDir { path, detail } => {
                let mut r = cat3("创建 ", path.as_str(), " 失败: ");
                r.append(detail.as_str());
                r
            },
            ConfigError::Write { path, detail } => {
                let mut r = cat3("写入 ", path.as_str(), " 失败: ");
                r.append(detail.as_str());
                r
            },
        }
    }
}

/// What is wrong with the shortcut at place `i`, given what its strokes and those of the
/// shortcuts before it were understood as.
pub open spec fn problem_at(
    bindings: Map<Seq<char>, Seq<char>>,
    strokes: Seq<Seq<Option<(Seq<char>, Seq<char>)>>>,
    i: int,
) -> Option<ConfigProblem> {
    let label = definitions()[i].label@;
    let value = value_at(bindings, i);
    if value.len() == 0 {
        Some(ConfigProblem::Missing { label })
    } else if exists|k: int| 0 <= k < strokes[i].len() && !stroke_good(#[trigger] strokes[i][k]) {
        Some(ConfigProblem::Invalid { label, value })
    } else {
        match normals(strokes).take(i).index_of_first(normal(strokes[i])) {
            Some(j) => Some(
                ConfigProblem::Conflict { previous: definitions()[j].label@, label, value },
            ),
            None => None,
        }
    }
}

/// Every binding in the form in which two of them are compared.
pub open spec fn normals(strokes: Seq<Seq<Option<(Seq<char>, Seq<char>)>>>) -> Seq<Seq<char>> {
    strokes.map_values(|row: Seq<Option<(Seq<char>, Seq<char>)>>| normal(row))
}

/// The first thing wrong with the shortcuts from place `i` on.
pub open spec fn problem_from(
    bindings: Map<Seq<char>, Seq<char>>,
    strokes: Seq<Seq<Option<(Seq<char>, Seq<char>)>>>,
    i: int,
) -> Option<ConfigProblem>
    decreases definitions().len() - i,
{
    if i >= definitions().len() {
        None
    } else {
        match problem_at(bindings, strokes, i) {
            Some(p) => Some(p),
            None => problem_from(bindings, strokes, i + 1),
        }
    }
}

/// The first thing wrong with the settings, in the order of the shortcuts.
pub open spec fn problem_in(
    bindings: Map<Seq<char>, Seq<char>>,
    strokes: Seq<Seq<Option<(Seq<char>, Seq<char>)>>>,
) -> Option<ConfigProblem> {
    problem_from(bindings, strokes, 0)
}

/// What came of reading the settings file.
#[derive(Debug)]
pub enum FileText {
    /// There is no such file.
    Absent,
    Text(String),
    /// It could not be read, and why.
    Failed(String),
}

/// What the settings are after reading their file.
pub open spec fn loaded(path: Seq<char>, file: FileText) -> Result<
    Map<Seq<char>, Seq<char>>,
    ConfigProblem,
> {
    match file {
        FileText::Absent => Ok(default_map()),
        FileText::Failed(detail) => Err(ConfigProblem::Read { path, detail: detail@ }),
        FileText::Text(text) => match table_read(text@, "shortcuts"@) {
            Ok(table) => Ok(merged(table)),
            Err(detail) => Err(ConfigProblem::Parse { path, detail }),
        },
    }
}

impl Default for ShortcutSettings {
    fn default() -> (r: ShortcutSettings)
        ensures
            r@ == default_map(),
    {
        let bindings = merge(&TextMap::new());
        let r = ShortcutSettings { bindings };
        assert(r@ =~= default_map());
        r
    }
}

/// Binds every shortcut to what `table` says, and else to what it is bound to at first.
fn merge(table: &TextMap) -> (r: TextMap)
    ensures
        r@ == merged(table@),
{
    let mut r = TextMap::new();
    let all = shortcuts();
    let mut i: usize = 0;
    while i < all.len()
        invariant
            all@ == definitions(),
            i <= all.len(),
            forall|id: Seq<char>| #[trigger]
                r@.contains_key(id) <==> (place_of(id) is Some && 0 <= place_of(id)->0 < i),
            forall|id: Seq<char>| #[trigger]
                r@.contains_key(id) ==> r@[id] == binding_in(table@, id),
        decreases all.len() - i,
    {
        proof {
            lemma_place(i as int);
        }
        let id = all[i].id;
        let ghost before = r@;
        match table.get(id) {
            Some(v) => {
                r.insert(id, v.to_owned());
            },
            None => {
                r.insert(id, all[i].default.to_owned());
            },
        }
        proof {
            assert(r@ == before.insert(id@, binding_in(table@, id@)));
            assert forall|k: Seq<char>| #[trigger] r@.contains_key(k) <==> (place_of(k) is Some
                && 0 <= place_of(k)->0 < i + 1) by {
                if place_of(k) == Some(i as int) {
                    assert(definitions()[i as int].id@ == k);
                }
            }
        }
        i = i + 1;
    }
    proof {
        assert forall|k: Seq<char>| place_of(k) is Some implies r@.contains_key(k) by {
            assert(0 <= place_of(k)->0 < definitions().len());
        }
        assert(r@ =~= merged(table@));
    }
    r
}

/// Whether every stroke of a binding was understood and names a key.
fn strokes_good(row: &Vec<Option<Keystroke>>) -> (r: bool)
    ensures
        r == (forall|k: int| 0 <= k < row@.len() ==> stroke_good(stroke_of(#[trigger] row@[k]))),
{
    let mut k: usize = 0;
    while k < row.len()
        invariant
            k <= row.len(),
            forall|j: int| 0 <= j < k ==> stroke_good(stroke_of(#[trigger] row@[j])),
        decreases row.len() - k,
    {
        let good = match &row[k] {
            Some(stroke) => !stroke.key.as_str().is_empty(),
            None => false,
        };
        if !good {
            assert(!stroke_good(stroke_of(row@[k as int])));
            return false;
        }
        k = k + 1;
    }
    true
}

/// A binding in the form in which two of them are compared.
fn normalize(row: &Vec<Option<Keystroke>>) -> (r: String)
    requires
        forall|k: int| 0 <= k < row@.len() ==> stroke_good(stroke_of(#[trigger] row@[k])),
    ensures
        r@ == normal(row@.map_values(|k: Option<Keystroke>| stroke_of(k))),
{
    let mut parts: Vec<String> = Vec::new();
    let mut k: usize = 0;
    let ghost seen = row@.map_values(|k: Option<Keystroke>| stroke_of(k));
    let ghost texts_wanted = seen.map_values(
        |k: Option<(Seq<char>, Seq<char>)>| lowered(k.unwrap().1),
    );
    while k < row.len()
        invariant
            k <= row.len(),
            forall|k: int| 0 <= k < row@.len() ==> stroke_good(stroke_of(#[trigger] row@[k])),
            seen == row@.map_values(|k: Option<Keystroke>| stroke_of(k)),
            texts_wanted == seen.map_values(|k: Option<(Seq<char>, Seq<char>)>| lowered(k.unwrap().1)),
            texts(parts@) == texts_wanted.take(k as int),
        decreases row.len() - k,
    {
        assert(stroke_good(stroke_of(row@[k as int])));
        let ghost before = parts@;
        if let Some(stroke) = &row[k] {
            parts.push(ascii_lower(stroke.text.as_str()));
            assert(texts(parts@) =~= texts(before).push(lowered(stroke.text@)));
        }
        assert(texts_wanted.take(k + 1) =~= texts_wanted.take(k as int).push(
            texts_wanted[k as int],
        ));
        k = k + 1;
    }
    assert(texts_wanted.take(row.len() as int) =~= texts_wanted);
    join(&parts, " ")
}

/// Where a string first occurs in a list.
fn first_place(list: &Vec<String>, s: &str) -> (r: Option<usize>)
    ensures
        match r {
            Some(i) => texts(list@).index_of_first(s@) == Some(i as int),
            None => texts(list@).index_of_first(s@) is None,
        },
{
    let mut i: usize = 0;
    while i < list.len()
        invariant
            i <= list.len(),
            forall|k: int| 0 <= k < i ==> (#[trigger] texts(list@)[k]) != s@,
        decreases list.len() - i,
    {
        assert(texts(list@)[i as int] == list@[i as int]@);
        if same(list[i].as_str(), s) {
            proof {
                texts(list@).index_of_first_ensures(s@);
            }
            return Some(i);
        }
        i = i + 1;
    }
    proof {
        texts(list@).index_of_first_ensures(s@);
    }
    None
}

impl ShortcutSettings {
    /// What `id` is bound to. An id without a binding of its own has the one it starts
    /// with; an unknown id has none.
    pub fn get(&self, id: &str) -> (r: &str)
        ensures
            r@ == binding_in(self@, id@),
    {
        match self.bindings.get(id) {
            Some(v) => v,
            None => match find(id) {
                Some(i) => shortcuts()[i].default,
                None => {
                    let r = "";
                    proof {
                        reveal_strlit("");
                        assert(r@ =~= Seq::<char>::empty());
                    }
                    r
                },
            },
        }
    }

    pub fn copy(&self) -> (r: ShortcutSettings)
        ensures
            r@ == self@,
    {
        ShortcutSettings { bindings: self.bindings.copy() }
    }

    /// Binds `id`.
    pub fn set(&mut self, id: &str, binding: String)
        ensures
            final(self)@ == old(self)@.insert(id@, binding@),
    {
        self.bindings.insert(id, binding);
    }

    /// How many ids have a binding of their own.
    pub fn len(&self) -> (r: usize)
        ensures
            r == self@.dom().len(),
            self@.dom().finite(),
    {
        self.bindings.len()
    }

    /// The path of the settings file, which lies beside the file of the profiles.
    pub fn path_for_profiles(profiles: &str) -> (r: String)
        ensures
            beside(profiles@, "shortcuts.toml"@, r@),
    {
        proof {
            reveal_strlit("shortcuts.toml");
            assert(plain_name("shortcuts.toml"@));
        }
        with_file_name(profiles, "shortcuts.toml")
    }

    /// The settings after reading their file. A file that is not there leaves every
    /// shortcut as it is at first; ids that are no shortcuts are passed over.
    ///
    /// The bindings themselves are checked by [`ShortcutSettings::checked`].
    pub fn load(path: &str, file: FileText) -> (r: Result<ShortcutSettings, ConfigError>)
        ensures
            match r {
                Ok(s) => loaded(path@, file) == Ok::<Map<Seq<char>, Seq<char>>, ConfigProblem>(s@),
                Err(e) => loaded(path@, file) == Err::<Map<Seq<char>, Seq<char>>, ConfigProblem>(
                    e@,
                ),
            },
    {
        match file {
            FileText::Absent => Ok(ShortcutSettings::default()),
            FileText::Failed(detail) => Err(ConfigError::Read { path: path.to_owned(), detail }),
            FileText::Text(text) => match read_table(text.as_str(), "shortcuts") {
                Ok(table) => Ok(ShortcutSettings { bindings: merge(&table) }),
                Err(detail) => Err(ConfigError::Parse { path: path.to_owned(), detail }),
            },
        }
    }

    /// The keystrokes of every binding, in the order of the shortcuts: what has to be
    /// parsed before the settings can be validated.
    pub fn strokes(&self) -> (r: Vec<Vec<String>>)
        ensures
            r@.len() == definitions().len(),
            forall|i: int|
                0 <= i < definitions().len() ==> texts((#[trigger] r@[i])@) == words_of(
                    value_at(self@, i),
                ),
    {
        let all = shortcuts();
        let mut r: Vec<Vec<String>> = Vec::new();
        let mut i: usize = 0;
        while i < all.len()
            invariant
                all@ == definitions(),
                i <= all.len(),
                r@.len() == i,
                forall|k: int|
                    0 <= k < i ==> texts((#[trigger] r@[k])@) == words_of(value_at(self@, k)),
            decreases all.len() - i,
        {
            r.push(words(trim(self.get(all[i].id))));
            i = i + 1;
        }
        r
    }

    /// Checks the bindings, given what the strokes of [`ShortcutSettings::strokes`] were
    /// understood as.
    pub fn validate(&self, parsed: &Vec<Vec<Option<Keystroke>>>) -> (r: Result<(), ConfigError>)
        requires
            parsed@.len() == definitions().len(),
        ensures
            match r {
                Ok(_) => problem_in(self@, strokes_of(parsed@)) is None,
                Err(e) => problem_in(self@, strokes_of(parsed@)) == Some(e@),
            },
    {
        let all = shortcuts();
        let mut used: Vec<String> = Vec::new();
        let mut i: usize = 0;
        let ghost strokes = strokes_of(parsed@);
        while i < all.len()
            invariant
                all@ == definitions(),
                parsed@.len() == definitions().len(),
                strokes == strokes_of(parsed@),
                i <= all.len(),
                texts(used@) == normals(strokes).take(i as int),
                problem_in(self@, strokes) == problem_from(self@, strokes, i as int),
            decreases all.len() - i,
        {
            let definition = &all[i];
            let value = trim(self.get(definition.id));
            let ghost row = parsed@[i as int]@;
            assert(strokes[i as int] == row.map_values(|k: Option<Keystroke>| stroke_of(k)));
            if value.is_empty() {
                return Err(ConfigError::Missing { label: definition.label });
            }
            if !strokes_good(&parsed[i]) {
                proof {
                    let k = choose|k: int|
                        0 <= k < row.len() && !stroke_good(stroke_of(#[trigger] row[k]));
                    assert(!stroke_good(strokes[i as int][k]));
                }
                return Err(
                    ConfigError::Invalid { label: definition.label, value: value.to_owned() },
                );
            }
            assert forall|k: int| 0 <= k < strokes[i as int].len() implies stroke_good(
                #[trigger] strokes[i as int][k],
            ) by {
                assert(stroke_good(stroke_of(row[k])));
            }
            let normalized = normalize(&parsed[i]);
            let ghost before = used@;
            match first_place(&used, normalized.as_str()) {
                Some(j) => {
                    proof {
                        texts(used@).index_of_first_ensures(normalized@);
                    }
                    return Err(
                        ConfigError::Conflict {
                            previous: all[j].label,
                            label: definition.label,
                            value: value.to_owned(),
                        },
                    );
                },
                None => {
                    used.push(normalized);
                },
            }
            proof {
                assert(texts(used@) =~= texts(before).push(normalized@));
                assert(normals(strokes)[i as int] == normal(strokes[i as int]));
                assert(normals(strokes).take(i + 1) =~= normals(strokes).take(i as int).push(
                    normals(strokes)[i as int],
                ));
                assert(problem_at(self@, strokes, i as int) is None);
            }
            i = i + 1;
        }
        Ok(())
    }

    /// The settings, if they pass validation: the last step of loading them.
    pub fn checked(self, parsed: &Vec<Vec<Option<Keystroke>>>) -> (r: Result<
        ShortcutSettings,
        ConfigError,
    >)
        requires
            parsed@.len() == definitions().len(),
        ensures
            match r {
                Ok(s) => s@ == self@ && problem_in(self@, strokes_of(parsed@)) is None,
                Err(e) => problem_in(self@, strokes_of(parsed@)) == Some(e@),
            },
    {
        match self.validate(parsed) {
            Ok(_) => Ok(self),
            Err(e) => Err(e),
        }
    }

    /// The text of the settings file. Settings that do not pass validation are not
    /// written.
    pub fn save(&self, parsed: &Vec<Vec<Option<Keystroke>>>) -> (r: Result<String, ConfigError>)
        requires
            parsed@.len() == definitions().len(),
        ensures
            match r {
                Ok(text) => problem_in(self@, strokes_of(parsed@)) is None && text@ == toml_text(
                    "shortcuts"@,
                    self@,
                ) && table_read(text@, "shortcuts"@) == Ok::<
                    Map<Seq<char>, Seq<char>>,
                    Seq<char>,
                >(self@),
                Err(e) => problem_in(self@, strokes_of(parsed@)) == Some(e@),
            },
    {
        match self.validate(parsed) {
            Ok(_) => match write_table("shortcuts", &self.bindings) {
                Ok(text) => Ok(text),
                Err(detail) => Err(ConfigError::Render { detail }),
            },
            Err(e) => Err(e),
        }
    }
}

// ── key bindings ──────────────────────────────────────────────────────────

/// One step towards a set of key bindings: keys that are to run an action in a part of
/// the window, or that are no longer to run it.
#[derive(Debug)]
pub struct KeyStep {
    pub unbind: bool,
    pub keys: String,
    pub action: Action,
    pub context: Option<&'static str>,
}

/// Whether a step binds, or unbinds, the shortcut at place `i` of some settings.
pub open spec fn step_is(
    step: KeyStep,
    unbind: bool,
    bindings: Map<Seq<char>, Seq<char>>,
    i: int,
) -> bool {
    &&& step.unbind == unbind
    &&& step.keys@ == binding_in(bindings, definitions()[i].id@)
    &&& step.action == actions()[i]
    &&& step.context == definitions()[i].context
}

/// Adds one step for every shortcut.
fn add_steps(steps: &mut Vec<KeyStep>, settings: &ShortcutSettings, unbind: bool)
    ensures
        final(steps)@.len() == old(steps)@.len() + definitions().len(),
        forall|i: int| 0 <= i < old(steps)@.len() ==> (#[trigger] final(steps)@[i]) == old(steps)@[i],
        forall|i: int|
            0 <= i < definitions().len() ==> step_is(
                #[trigger] final(steps)@[old(steps)@.len() + i],
                unbind,
                settings@,
                i,
            ),
{
    let all = shortcuts();
    let ghost before = steps@;
    let mut i: usize = 0;
    while i < all.len()
        invariant
            all@ == definitions(),
            i <= all.len(),
            steps@.len() == before.len() + i,
            forall|k: int| 0 <= k < before.len() ==> (#[trigger] steps@[k]) == before[k],
            forall|k: int|
                0 <= k < i ==> step_is(#[trigger] steps@[before.len() + k], unbind, settings@, k),
        decreases all.len() - i,
    {
        steps.push(
            KeyStep {
                unbind,
                keys: settings.get(all[i].id).to_owned(),
                action: action_at(i),
                context: all[i].context,
            },
        );
        i = i + 1;
    }
}

/// The bindings of a window that opens with the settings nobody has changed.
pub fn init() -> (r: Vec<KeyStep>)
    ensures
        r@.len() == definitions().len(),
        forall|i: int|
            0 <= i < definitions().len() ==> step_is(#[trigger] r@[i], false, default_map(), i),
{
    init_with_shortcuts(&ShortcutSettings::default())
}

/// The bindings of a window that opens with `settings`.
pub fn init_with_shortcuts(settings: &ShortcutSettings) -> (r: Vec<KeyStep>)
    ensures
        r@.len() == definitions().len(),
        forall|i: int|
            0 <= i < definitions().len() ==> step_is(#[trigger] r@[i], false, settings@, i),
{
    let mut r: Vec<KeyStep> = Vec::new();
    add_steps(&mut r, settings, false);
    assert forall|i: int| 0 <= i < definitions().len() implies step_is(
        #[trigger] r@[i],
        false,
        settings@,
        i,
    ) by {
        assert(step_is(r@[0 + i], false, settings@, i));
    }
    r
}

/// The steps from the bindings of `old` to those of `new`: every shortcut loses what it
/// had, and then every shortcut gets what it is to have. Bindings of anything else are not
/// touched.
pub fn rebind(old_settings: &ShortcutSettings, new_settings: &ShortcutSettings) -> (r: Vec<KeyStep>)
    ensures
        r@.len() == 2 * definitions().len(),
        forall|i: int|
            0 <= i < definitions().len() ==> step_is(#[trigger] r@[i], true, old_settings@, i),
        forall|i: int|
            0 <= i < definitions().len() ==> step_is(
                #[trigger] r@[definitions().len() + i],
                false,
                new_settings@,
                i,
            ),
{
    let mut r: Vec<KeyStep> = Vec::new();
    add_steps(&mut r, old_settings, true);
    let ghost unbinds = r@;
    assert forall|i: int| 0 <= i < definitions().len() implies step_is(
        #[trigger] unbinds[i],
        true,
        old_settings@,
        i,
    ) by {
        assert(step_is(unbinds[0 + i], true, old_settings@, i));
    }
    add_steps(&mut r, new_settings, false);
    r
}

/// An item of a menu of the application.
#[derive(Clone, Copy, Debug)]
pub enum AppMenuItem {
    /// The system's menu of services.
    Services(&'static str),
    Separator,
    Action { label: &'static str, action: Action },
}

/// A menu of the application.
#[derive(Debug)]
pub struct AppMenu {
    pub title: &'static str,
    pub items: Vec<AppMenuItem>,
}

/// Whether the menus are those of the application.
pub open spec fn menus_are(menus: Seq<AppMenu>) -> bool {
    &&& menus.len() == 2
    &&& menus[0].title@ == "Roam"@
    &&& menus[0].items@ == seq![
        AppMenuItem::Services("服务"),
        AppMenuItem::Separator,
        AppMenuItem::Action { label: "退出 Roam", action: Action::QuitApp },
    ]
    &&& menus[1].title@ == "文件"@
    &&& menus[1].items@ == seq![
        AppMenuItem::Action { label: "关闭标签页", action: Action::CloseTab },
    ]
}

/// The application's menus. Closing a tab and quitting stand there because some systems
/// reserve their keys for such items; this way they go the way of every other invocation.
pub fn menus() -> (r: Vec<AppMenu>)
    ensures
        menus_are(r@),
        r@.len() == 2,
        r@[0].title@ == "Roam"@,
        r@[0].items@ == seq![
            AppMenuItem::Services("服务"),
            AppMenuItem::Separator,
            AppMenuItem::Action { label: "退出 Roam", action: Action::QuitApp },
        ],
        r@[1].title@ == "文件"@,
        r@[1].items@ == seq![
            AppMenuItem::Action { label: "关闭标签页", action: Action::CloseTab },
        ],
{
    let roam: Vec<AppMenuItem> = vec![
        AppMenuItem::Services("服务"),
        AppMenuItem::Separator,
        AppMenuItem::Action { label: "退出 Roam", action: Action::QuitApp },
    ];
    let file: Vec<AppMenuItem> = vec![
        AppMenuItem::Action { label: "关闭标签页", action: Action::CloseTab },
    ];
    assert(roam@ =~= seq![
        AppMenuItem::Services("服务"),
        AppMenuItem::Separator,
        AppMenuItem::Action { label: "退出 Roam", action: Action::QuitApp },
    ]);
    assert(file@ =~= seq![
        AppMenuItem::Action { label: "关闭标签页", action: Action::CloseTab },
    ]);
    vec![AppMenu { title: "Roam", items: roam }, AppMenu { title: "文件", items: file }]
}

// ── laws ──────────────────────────────────────────────────────────────────

/// A binding that was set is the one that is found, and setting it changes no other.
pub proof fn law_set_then_get(
    bindings: Map<Seq<char>, Seq<char>>,
    id: Seq<char>,
    binding: Seq<char>,
    other: Seq<char>,
)
    ensures
        binding_in(bindings.insert(id, binding), id) == binding,
        other != id ==> binding_in(bindings.insert(id, binding), other) == binding_in(
            bindings,
            other,
        ),
{
}

/// The settings nobody has changed bind every shortcut, and nothing else.
pub proof fn law_defaults_cover_every_action()
    ensures
        default_map().dom().finite(),
        default_map().dom().len() == definitions().len(),
        forall|i: int|
            0 <= i < definitions().len() ==> default_map().contains_key(
                (#[trigger] definitions()[i]).id@,
            ) && default_map()[definitions()[i].id@] == definitions()[i].default@,
{
    let ids = definitions().map_values(|d: ShortcutDefinition| d.id@);
    assert(ids.no_duplicates()) by {
        assert forall|i: int, j: int|
            0 <= i < ids.len() && 0 <= j < ids.len() && i != j implies ids[i] != ids[j] by {
            law_ids_differ(i, j);
        }
    }
    ids.unique_seq_to_set();
    assert forall|id: Seq<char>| default_map().dom().contains(id) <==> ids.to_set().contains(id) by {
        if place_of(id) is Some {
            assert(ids[place_of(id)->0] == id);
        }
        if ids.contains(id) {
            let i = ids.index_of(id);
            assert(definitions()[i].id@ == id);
        }
    }
    assert(default_map().dom() =~= ids.to_set());
    assert forall|i: int| 0 <= i < definitions().len() implies default_map().contains_key(
        (#[trigger] definitions()[i]).id@,
    ) && default_map()[definitions()[i].id@] == definitions()[i].default@ by {
        lemma_place(i);
    }
}

/// Text with something other than white space at both ends loses nothing by trimming.
proof fn lemma_trimmed_keeps(s: Seq<char>)
    requires
        s.len() > 0,
        !crate::text::is_white_space(s[0]),
        !crate::text::is_white_space(s.last()),
    ensures
        trimmed(s) == s,
{
}

proof fn lemma_problem_none(
    bindings: Map<Seq<char>, Seq<char>>,
    strokes: Seq<Seq<Option<(Seq<char>, Seq<char>)>>>,
    i: int,
)
    requires
        0 <= i <= definitions().len(),
        forall|k: int| i <= k < definitions().len() ==> problem_at(bindings, strokes, k) is None,
    ensures
        problem_from(bindings, strokes, i) is None,
    decreases definitions().len() - i,
{
    if i < definitions().len() {
        assert(problem_at(bindings, strokes, i) is None);
        lemma_problem_none(bindings, strokes, i + 1);
    }
}

/// The settings nobody has changed pass validation, where each of their strokes is
/// understood and names a key, and no two of them are the same binding.
pub proof fn law_defaults_validate(strokes: Seq<Seq<Option<(Seq<char>, Seq<char>)>>>)
    requires
        strokes.len() == definitions().len(),
        forall|i: int, k: int|
            0 <= i < strokes.len() && 0 <= k < strokes[i].len() ==> stroke_good(
                #[trigger] strokes[i][k],
            ),
        forall|i: int, j: int|
            0 <= i < j < strokes.len() ==> #[trigger] normals(strokes)[i] != #[trigger] normals(
                strokes,
            )[j],
    ensures
        problem_in(default_map(), strokes) is None,
{
    law_defaults_cover_every_action();
    let all = normals(strokes);
    assert forall|i: int| 0 <= i < definitions().len() implies problem_at(
        default_map(),
        strokes,
        i,
    ) is None by {
        let d = definitions()[i];
        lemma_default_ends(i);
        lemma_trimmed_keeps(d.default@);
        all.take(i).index_of_first_ensures(all[i]);
        assert(!all.take(i).contains(all[i]));
    }
    lemma_problem_none(default_map(), strokes, 0);
}

/// The settings nobody has changed are different bindings wherever each is understood as one
/// stroke that is written out as it was read.
pub proof fn law_defaults_stay_different(
    strokes: Seq<Seq<Option<(Seq<char>, Seq<char>)>>>,
    i: int,
    j: int,
)
    requires
        strokes.len() == definitions().len(),
        forall|i: int|
            0 <= i < strokes.len() ==> (#[trigger] strokes[i]).len() == 1 && stroke_good(strokes[i][0])
                && strokes[i][0].unwrap().1 == definitions()[i].default@,
        0 <= i < j < strokes.len(),
    ensures
        normals(strokes)[i] != normals(strokes)[j],
{
    let all = normals(strokes);
    assert forall|i: int| 0 <= i < strokes.len() implies #[trigger] all[i] == lowered(
        definitions()[i].default@,
    ) by {
        let row = strokes[i].map_values(|k: Option<(Seq<char>, Seq<char>)>| lowered(k.unwrap().1));
        assert(row.len() == 1);
        assert(joined(row, " "@) == row[0]);
    }
    let a = definitions()[i].default@;
    let b = definitions()[j].default@;
    lemma_default_ends(i);
    lemma_default_ends(j);
    lemma_default_marks(i, j);
    assert(mark(lowered(a)) == mark(a));
    assert(mark(lowered(b)) == mark(b));
    assert(all[i] == lowered(a) && all[j] == lowered(b));
}

/// A string that begins and ends in something that is neither white space nor a capital.
spec fn ends_small(s: Seq<char>) -> bool {
    &&& s.len() > 0
    &&& !crate::text::is_white_space(s[0])
    &&& !crate::text::is_white_space(s.last())
    &&& lowered(s)[0] == s[0]
    &&& lowered(s).last() == s.last()
}

proof fn lemma_default_ends(i: int)
    requires
        0 <= i < definitions().len(),
    ensures
        ends_small(definitions()[i].default@),
{
    reveal_strlit("enter");
    reveal_strlit("backspace");
    reveal_strlit("cmd-[");
    reveal_strlit("cmd-]");
    reveal_strlit("cmd-r");
    reveal_strlit("cmd-f");
    reveal_strlit("cmd-shift-n");
    reveal_strlit("cmd-backspace");
    reveal_strlit("space");
    reveal_strlit("cmd-shift-.");
    reveal_strlit("cmd-d");
    reveal_strlit("cmd-t");
    reveal_strlit("cmd-w");
    reveal_strlit("cmd-shift-]");
    reveal_strlit("cmd-shift-[");
    reveal_strlit("cmd-q");
}

/// What a shortcut is bound to at first has no white space around it.
pub proof fn law_defaults_are_trimmed(i: int)
    requires
        0 <= i < definitions().len(),
    ensures
        trimmed(definitions()[i].default@) == definitions()[i].default@,
{
    lemma_default_ends(i);
    lemma_trimmed_keeps(definitions()[i].default@);
}

/// What was saved is what is loaded: every shortcut has the binding it had, and the
/// settings are as valid as they were.
pub proof fn law_settings_round_trip(
    bindings: Map<Seq<char>, Seq<char>>,
    text: String,
    path: Seq<char>,
    strokes: Seq<Seq<Option<(Seq<char>, Seq<char>)>>>,
)
    requires
        table_read(text@, "shortcuts"@) == Ok::<Map<Seq<char>, Seq<char>>, Seq<char>>(bindings),
    ensures
        loaded(path, FileText::Text(text)) == Ok::<Map<Seq<char>, Seq<char>>, ConfigProblem>(
            merged(bindings),
        ),
        forall|i: int|
            0 <= i < definitions().len() ==> binding_in(
                merged(bindings),
                (#[trigger] definitions()[i]).id@,
            ) == binding_in(bindings, definitions()[i].id@),
        problem_in(merged(bindings), strokes) == problem_in(bindings, strokes),
{
    assert forall|i: int| 0 <= i < definitions().len() implies binding_in(
        merged(bindings),
        (#[trigger] definitions()[i]).id@,
    ) == binding_in(bindings, definitions()[i].id@) by {
        lemma_place(i);
    }
    lemma_same_problem(merged(bindings), bindings, strokes, 0);
}

proof fn lemma_same_problem(
    a: Map<Seq<char>, Seq<char>>,
    b: Map<Seq<char>, Seq<char>>,
    strokes: Seq<Seq<Option<(Seq<char>, Seq<char>)>>>,
    i: int,
)
    requires
        0 <= i <= definitions().len(),
        forall|k: int|
            0 <= k < definitions().len() ==> binding_in(a, (#[trigger] definitions()[k]).id@)
                == binding_in(b, definitions()[k].id@),
    ensures
        problem_from(a, strokes, i) == problem_from(b, strokes, i),
    decreases definitions().len() - i,
{
    if i < definitions().len() {
        assert(value_at(a, i) == value_at(b, i));
        lemma_same_problem(a, b, strokes, i + 1);
    }
}

/// Whether there is a shortcut with these words, keys and place in the window, for an action.
pub open spec fn shortcut_is(
    id: Seq<char>,
    label: Seq<char>,
    group: Seq<char>,
    default: Seq<char>,
    context: Option<Seq<char>>,
    action: Action,
) -> bool {
    place_of(id) matches Some(i) && definitions()[i].label@ == label && definitions()[i].group@
        == group && definitions()[i].default@ == default && (match definitions()[i].context {
        Some(c) => context == Some(c@),
        None => context is None,
    }) && actions()[i] == action
}

/// Every shortcut, by its id: what it is called, where it stands, which keys it starts with,
/// in which part of the window they work, and what they do.
pub proof fn law_shortcuts_by_id()
    ensures
        definitions().len() == 16,
        actions().len() == 16,
        shortcut_is(
            "open_selected"@,
            "打开所选项目"@,
            "浏览"@,
            "enter"@,
            Some("Browser"@),
            Action::OpenSelected,
        ),
        shortcut_is(
            "go_up"@,
            "上一级目录"@,
            "浏览"@,
            "backspace"@,
            Some("Browser"@),
            Action::GoUp,
        ),
        shortcut_is(
            "go_back"@,
            "后退"@,
            "浏览"@,
            "cmd-["@,
            Some("Browser"@),
            Action::GoBack,
        ),
        shortcut_is(
            "go_forward"@,
            "前进"@,
            "浏览"@,
            "cmd-]"@,
            Some("Browser"@),
            Action::GoForward,
        ),
        shortcut_is(
            "reload"@,
            "刷新"@,
            "浏览"@,
            "cmd-r"@,
            Some("Browser"@),
            Action::Reload,
        ),
        shortcut_is(
            "focus_filter"@,
            "过滤当前目录"@,
            "浏览"@,
            "cmd-f"@,
            Some("Browser"@),
            Action::FocusFilter,
        ),
        shortcut_is(
            "new_folder"@,
            "新建文件夹"@,
            "文件"@,
            "cmd-shift-n"@,
            Some("Browser"@),
            Action::NewFolder,
        ),
        shortcut_is(
            "delete_selected"@,
            "删除所选项目"@,
            "文件"@,
            "cmd-backspace"@,
            Some("Browser"@),
            Action::DeleteSelected,
        ),
        shortcut_is(
            "toggle_preview"@,
            "显示或隐藏预览"@,
            "文件"@,
            "space"@,
            Some("Browser"@),
            Action::TogglePreview,
        ),
        shortcut_is(
            "toggle_hidden"@,
            "显示或隐藏点文件"@,
            "文件"@,
            "cmd-shift-."@,
            Some("Browser"@),
            Action::ToggleHidden,
        ),
        shortcut_is(
            "download_selected"@,
            "下载所选项目"@,
            "文件"@,
            "cmd-d"@,
            Some("Browser"@),
            Action::DownloadSelected,
        ),
        shortcut_is(
            "new_tab"@,
            "新建标签页"@,
            "标签页与应用"@,
            "cmd-t"@,
            None,
            Action::NewTab,
        ),
        shortcut_is(
            "close_tab"@,
            "关闭标签页"@,
            "标签页与应用"@,
            "cmd-w"@,
            None,
            Action::CloseTab,
        ),
        shortcut_is(
            "next_tab"@,
            "下一个标签页"@,
            "标签页与应用"@,
            "cmd-shift-]"@,
            None,
            Action::NextTab,
        ),
        shortcut_is(
            "prev_tab"@,
            "上一个标签页"@,
            "标签页与应用"@,
            "cmd-shift-["@,
            None,
            Action::PrevTab,
        ),
        shortcut_is(
            "quit_app"@,
            "退出应用"@,
            "标签页与应用"@,
            "cmd-q"@,
            None,
            Action::QuitApp,
        ),
{
    lemma_place(0);
    lemma_place(1);
    lemma_place(2);
    lemma_place(3);
    lemma_place(4);
    lemma_place(5);
    lemma_place(6);
    lemma_place(7);
    lemma_place(8);
    lemma_place(9);
    lemma_place(10);
    lemma_place(11);
    lemma_place(12);
    lemma_place(13);
    lemma_place(14);
    lemma_place(15);
}

/// Each id runs the action of its name.
pub proof fn law_actions_by_id()
    ensures
        action_of("open_selected"@) == Some(Action::OpenSelected),
        action_of("go_up"@) == Some(Action::GoUp),
        action_of("go_back"@) == Some(Action::GoBack),
        action_of("go_forward"@) == Some(Action::GoForward),
        action_of("reload"@) == Some(Action::Reload),
        action_of("focus_filter"@) == Some(Action::FocusFilter),
        action_of("new_folder"@) == Some(Action::NewFolder),
        action_of("delete_selected"@) == Some(Action::DeleteSelected),
        action_of("toggle_preview"@) == Some(Action::TogglePreview),
        action_of("toggle_hidden"@) == Some(Action::ToggleHidden),
        action_of("download_selected"@) == Some(Action::DownloadSelected),
        action_of("new_tab"@) == Some(Action::NewTab),
        action_of("close_tab"@) == Some(Action::CloseTab),
        action_of("next_tab"@) == Some(Action::NextTab),
        action_of("prev_tab"@) == Some(Action::PrevTab),
        action_of("quit_app"@) == Some(Action::QuitApp),
{
    lemma_place(0);
    lemma_place(1);
    lemma_place(2);
    lemma_place(3);
    lemma_place(4);
    lemma_place(5);
    lemma_place(6);
    lemma_place(7);
    lemma_place(8);
    lemma_place(9);
    lemma_place(10);
    lemma_place(11);
    lemma_place(12);
    lemma_place(13);
    lemma_place(14);
    lemma_place(15);
}

/// A shortcut is found at the place where its id stands, and no other id is found.
pub proof fn law_places(id: Seq<char>)
    ensures
        place_of(id) matches Some(i) ==> 0 <= i < definitions().len() && definitions()[i].id@ == id,
        place_of(id) is None ==> forall|i: int|
            0 <= i < definitions().len() ==> (#[trigger] definitions()[i]).id@ != id,
        action_of(id) is Some <==> exists|i: int|
            0 <= i < definitions().len() && (#[trigger] definitions()[i]).id@ == id,
{
}

/// A step of the key bindings carries the action of its shortcut, with the keys that the
/// settings give for it, in its part of the window.
pub proof fn law_steps_carry_their_action(
    step: KeyStep,
    unbind: bool,
    bindings: Map<Seq<char>, Seq<char>>,
    i: int,
)
    requires
        0 <= i < definitions().len(),
        step_is(step, unbind, bindings, i),
    ensures
        step.unbind == unbind,
        action_of(definitions()[i].id@) == Some(step.action),
        step.context == definitions()[i].context,
        bindings.contains_key(definitions()[i].id@) ==> step.keys@
            == bindings[definitions()[i].id@],
        !bindings.contains_key(definitions()[i].id@) ==> step.keys@ == definitions()[i].default@,
{
    lemma_place(i);
}

/// What a shortcut is bound to is what was set for it, and else what it starts with; what is no
/// shortcut starts with nothing. Reading a table takes what it says of shortcuts and leaves out
/// everything else.
pub proof fn law_bindings(table: Map<Seq<char>, Seq<char>>, id: Seq<char>, i: int)
    requires
        0 <= i < definitions().len(),
    ensures
        table.contains_key(id) ==> binding_in(table, id) == table[id],
        !table.contains_key(id) && place_of(id) is None ==> binding_in(table, id).len() == 0,
        !table.contains_key(definitions()[i].id@) ==> binding_in(table, definitions()[i].id@)
            == definitions()[i].default@,
        default_of(definitions()[i].id@) == definitions()[i].default@,
        merged(table).contains_key(id) <==> exists|k: int|
            0 <= k < definitions().len() && (#[trigger] definitions()[k]).id@ == id,
        merged(table)[definitions()[i].id@] == (if table.contains_key(definitions()[i].id@) {
            table[definitions()[i].id@]
        } else {
            definitions()[i].default@
        }),
        default_map().contains_key(id) <==> exists|k: int|
            0 <= k < definitions().len() && (#[trigger] definitions()[k]).id@ == id,
{
    lemma_place(i);
    assert(definitions()[i].id@ == definitions()[i].id@);
}

/// Loading leaves the defaults where there is no file, takes what the file's table says where
/// it can be read, and says of which file and why not where it cannot.
pub proof fn law_loading(path: Seq<char>, text: String, detail: String, i: int)
    requires
        0 <= i < definitions().len(),
    ensures
        loaded(path, FileText::Absent) == Ok::<Map<Seq<char>, Seq<char>>, ConfigProblem>(
            default_map(),
        ),
        loaded(path, FileText::Failed(detail)) == Err::<Map<Seq<char>, Seq<char>>, ConfigProblem>(
            ConfigProblem::Read { path, detail: detail@ },
        ),
        table_read(text@, "shortcuts"@) matches Ok(table) ==> loaded(
            path,
            FileText::Text(text),
        ) is Ok && loaded(path, FileText::Text(text))->Ok_0[definitions()[i].id@] == (
        if table.contains_key(definitions()[i].id@) {
            table[definitions()[i].id@]
        } else {
            definitions()[i].default@
        }),
        table_read(text@, "shortcuts"@) matches Err(reason) ==> loaded(path, FileText::Text(text))
            == Err::<Map<Seq<char>, Seq<char>>, ConfigProblem>(
            ConfigProblem::Parse { path, detail: reason },
        ),
{
    lemma_place(i);
}

/// Each error says what is wrong with what, in its own words.
pub proof fn law_error_words(
    label: &'static str,
    previous: &'static str,
    value: String,
    path: String,
    detail: String,
)
    ensures
        problem_text((ConfigError::Missing { label })@) == "请为「"@ + label@ + "」设置快捷键"@,
        problem_text((ConfigError::Invalid { label, value })@) == "「"@ + label@
            + "」的快捷键格式无效："@ + value@,
        problem_text((ConfigError::Conflict { previous, label, value })@) == "「"@ + previous@
            + "」与「"@ + label@ + "」使用了相同快捷键："@ + value@,
        problem_text((ConfigError::Read { path, detail })@) == "读取 "@ + path@ + " 失败: "@
            + detail@,
        problem_text((ConfigError::Parse { path, detail })@) == "解析 "@ + path@ + " 失败: "@
            + detail@,
        problem_text((ConfigError::Render { detail })@) == "序列化快捷键失败: "@ + detail@,
        problem_text((ConfigError::CreateDir { path, detail })@) == "创建 "@ + path@
            + " 失败: "@ + detail@,
        problem_text((ConfigError::Write { path, detail })@) == "写入 "@ + path@ + " 失败: "@
            + detail@,
{
}

/// A stroke counts where it was understood and names a key. A binding is compared by the texts
/// of its strokes, made small, with a space between each two.
pub proof fn law_strokes(
    key: Seq<char>,
    text: Seq<char>,
    row: Seq<Option<(Seq<char>, Seq<char>)>>,
    parsed: Seq<Vec<Option<Keystroke>>>,
    i: int,
    k: int,
)
    requires
        0 <= i < parsed.len(),
        0 <= k < parsed[i]@.len(),
    ensures
        stroke_good(Some((key, text))) <==> key.len() > 0,
        !stroke_good(None),
        normal(Seq::empty()).len() == 0,
        normal(seq![Some((key, text))]) == lowered(text),
        row.len() > 0 ==> normal(row.push(Some((key, text)))) == normal(row) + " "@ + lowered(text),
        strokes_of(parsed).len() == parsed.len(),
        strokes_of(parsed)[i].len() == parsed[i]@.len(),
        parsed[i]@[k] matches Some(stroke) ==> strokes_of(parsed)[i][k] == Some(
            (stroke.key@, stroke.text@),
        ),
        parsed[i]@[k] is None ==> strokes_of(parsed)[i][k] is None,
        normals(strokes_of(parsed)).len() == parsed.len(),
        normals(strokes_of(parsed))[i] == normal(strokes_of(parsed)[i]),
{
    let texts = |r: Seq<Option<(Seq<char>, Seq<char>)>>|
        r.map_values(|s: Option<(Seq<char>, Seq<char>)>| lowered(s.unwrap().1));
    let stroke = Some((key, text));
    assert(texts(Seq::empty()) =~= Seq::<Seq<char>>::empty());
    assert(texts(seq![stroke]) =~= seq![lowered(text)]);
    assert(texts(row.push(stroke)) =~= texts(row).push(lowered(text)));
    crate::text::law_joining(texts(row), lowered(text), " "@);
}

/// Whether nothing is wrong with the shortcut at a place: it has a binding, each of its strokes
/// counts, and no shortcut before it has the same one.
pub open spec fn in_order(
    bindings: Map<Seq<char>, Seq<char>>,
    strokes: Seq<Seq<Option<(Seq<char>, Seq<char>)>>>,
    i: int,
) -> bool {
    &&& trimmed(binding_in(bindings, definitions()[i].id@)).len() > 0
    &&& forall|k: int| 0 <= k < strokes[i].len() ==> stroke_good(#[trigger] strokes[i][k])
    &&& forall|j: int| 0 <= j < i ==> normal(#[trigger] strokes[j]) != normal(strokes[i])
}

proof fn lemma_in_order(
    bindings: Map<Seq<char>, Seq<char>>,
    strokes: Seq<Seq<Option<(Seq<char>, Seq<char>)>>>,
    i: int,
)
    requires
        0 <= i < definitions().len(),
        strokes.len() == definitions().len(),
    ensures
        problem_at(bindings, strokes, i) is None <==> in_order(bindings, strokes, i),
{
    let before = normals(strokes).take(i);
    before.index_of_first_ensures(normal(strokes[i]));
    assert forall|j: int| 0 <= j < i implies before[j] == normal(#[trigger] strokes[j]) by {}
    if before.contains(normal(strokes[i])) {
        let j = before.index_of(normal(strokes[i]));
        assert(normal(strokes[j]) == normal(strokes[i]));
    }
    if exists|j: int| 0 <= j < i && normal(#[trigger] strokes[j]) == normal(strokes[i]) {
        let j = choose|j: int| 0 <= j < i && normal(#[trigger] strokes[j]) == normal(strokes[i]);
        assert(before[j] == normal(strokes[i]));
        assert(before.contains(normal(strokes[i])));
    }
}

proof fn lemma_first_problem(
    bindings: Map<Seq<char>, Seq<char>>,
    strokes: Seq<Seq<Option<(Seq<char>, Seq<char>)>>>,
    from: int,
    i: int,
)
    requires
        0 <= from <= i < definitions().len(),
        strokes.len() == definitions().len(),
        forall|k: int| from <= k < i ==> #[trigger] in_order(bindings, strokes, k),
        !in_order(bindings, strokes, i),
    ensures
        problem_from(bindings, strokes, from) == problem_at(bindings, strokes, i),
    decreases i - from,
{
    lemma_in_order(bindings, strokes, from);
    if from < i {
        assert(in_order(bindings, strokes, from));
        lemma_first_problem(bindings, strokes, from + 1, i);
    }
}

/// Settings are valid exactly where nothing is wrong with any of their shortcuts.
pub proof fn law_valid_settings(
    bindings: Map<Seq<char>, Seq<char>>,
    strokes: Seq<Seq<Option<(Seq<char>, Seq<char>)>>>,
)
    requires
        strokes.len() == definitions().len(),
    ensures
        problem_in(bindings, strokes) is None <==> forall|i: int|
            0 <= i < definitions().len() ==> #[trigger] in_order(bindings, strokes, i),
{
    if forall|i: int| 0 <= i < definitions().len() ==> #[trigger] in_order(bindings, strokes, i) {
        assert forall|k: int| 0 <= k < definitions().len() implies problem_at(
            bindings,
            strokes,
            k,
        ) is None by {
            assert(in_order(bindings, strokes, k));
            lemma_in_order(bindings, strokes, k);
        }
        lemma_problem_none(bindings, strokes, 0);
    } else {
        let i = lemma_least(bindings, strokes, 0);
        lemma_first_problem(bindings, strokes, 0, i);
        lemma_in_order(bindings, strokes, i);
    }
}

proof fn lemma_least(
    bindings: Map<Seq<char>, Seq<char>>,
    strokes: Seq<Seq<Option<(Seq<char>, Seq<char>)>>>,
    from: int,
) -> (i: int)
    requires
        0 <= from <= definitions().len(),
        exists|i: int|
            from <= i < definitions().len() && !(#[trigger] in_order(bindings, strokes, i)),
    ensures
        from <= i < definitions().len(),
        !in_order(bindings, strokes, i),
        forall|k: int| from <= k < i ==> #[trigger] in_order(bindings, strokes, k),
    decreases definitions().len() - from,
{
    if in_order(bindings, strokes, from) {
        let j = choose|j: int|
            from <= j < definitions().len() && !(#[trigger] in_order(bindings, strokes, j));
        assert(j != from);
        assert(from + 1 <= j);
        lemma_least(bindings, strokes, from + 1)
    } else {
        from
    }
}

/// The first shortcut that something is wrong with is the one that is reported: that it has no
/// binding, else that its binding is no sequence of keys, else the first shortcut before it
/// that has the same one.
pub proof fn law_the_first_problem_is_reported(
    bindings: Map<Seq<char>, Seq<char>>,
    strokes: Seq<Seq<Option<(Seq<char>, Seq<char>)>>>,
    i: int,
    j: int,
)
    requires
        0 <= i < definitions().len(),
        strokes.len() == definitions().len(),
        forall|k: int| 0 <= k < i ==> #[trigger] in_order(bindings, strokes, k),
    ensures
        ({
            let label = definitions()[i].label@;
            let value = trimmed(binding_in(bindings, definitions()[i].id@));
            let bad = exists|k: int|
                0 <= k < strokes[i].len() && !stroke_good(#[trigger] strokes[i][k]);
            let same_before = 0 <= j < i && normal(strokes[j]) == normal(strokes[i]) && forall|l: int|
                0 <= l < j ==> normal(#[trigger] strokes[l]) != normal(strokes[i]);
            &&& value.len() == 0 ==> problem_in(bindings, strokes) == Some(
                ConfigProblem::Missing { label },
            )
            &&& value.len() > 0 && bad ==> problem_in(bindings, strokes) == Some(
                ConfigProblem::Invalid { label, value },
            )
            &&& value.len() > 0 && !bad && same_before ==> problem_in(bindings, strokes) == Some(
                ConfigProblem::Conflict { previous: definitions()[j].label@, label, value },
            )
        }),
{
    let value = trimmed(binding_in(bindings, definitions()[i].id@));
    let bad = exists|k: int| 0 <= k < strokes[i].len() && !stroke_good(#[trigger] strokes[i][k]);
    let before = normals(strokes).take(i);
    assert forall|l: int| 0 <= l < i implies before[l] == normal(#[trigger] strokes[l]) by {}
    if value.len() == 0 {
        lemma_first_problem(bindings, strokes, 0, i);
    } else if bad {
        lemma_first_problem(bindings, strokes, 0, i);
    } else if 0 <= j < i && normal(strokes[j]) == normal(strokes[i]) && (forall|l: int|
        0 <= l < j ==> normal(#[trigger] strokes[l]) != normal(strokes[i])) {
        assert(!in_order(bindings, strokes, i));
        lemma_first_problem(bindings, strokes, 0, i);
        assert(before[j] == normal(strokes[i]));
        assert(before.contains(normal(strokes[i])));
        before.index_of_first_ensures(normal(strokes[i]));
        let first = before.index_of_first(normal(strokes[i]))->0;
        assert(normal(strokes[first]) == normal(strokes[i]));
        assert(first == j);
    }
}

/// The application's menus quit it and close a tab, beside the system's services.
pub proof fn law_menus(menus: Seq<AppMenu>)
    requires
        menus_are(menus),
    ensures
        menus.len() == 2,
        menus[0].title@ == "Roam"@,
        menus[0].items@.len() == 3,
        menus[0].items@[0] == AppMenuItem::Services("服务"),
        menus[0].items@[1] is Separator,
        menus[0].items@[2] == (AppMenuItem::Action {
            label: "退出 Roam",
            action: Action::QuitApp,
        }),
        menus[1].title@ == "文件"@,
        menus[1].items@.len() == 1,
        menus[1].items@[0] == (AppMenuItem::Action {
            label: "关闭标签页",
            action: Action::CloseTab,
        }),
        BROWSER_CONTEXT@ == "Browser"@,
        WORKSPACE_CONTEXT@ == "Workspace"@,
{
}

/// Two settings are equal exactly where they bind the same ids to the same keys.
pub proof fn law_equal_settings(a: ShortcutSettings, b: ShortcutSettings)
    ensures
        vstd::std_specs::cmp::PartialEqSpec::eq_spec(&a, &b) <==> a@ == b@,
{
}

} // verus!

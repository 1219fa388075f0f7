//! The window: its tabs, its connections, and what it says around the browsing pane.

use vstd::prelude::*;
use crate::actions::{ShortcutSettings, binding_in, definitions, shortcuts};
use crate::delegate::{TableState, shown_hidden, visible};
use crate::dialog::{ButtonStyle, Dialog, question};
use crate::connection_form::REMOVED_SCHEME;
use crate::dir_tree::{DirTreeView, Tree, TreeRow, with_hidden};
use crate::entry::{Capability, Icon};
use crate::text::{
    cat, cat3, decimal, is_empty, join, joined, number, same, text_option, texts,
};

verus! {

/// Identifies the always-present local session, which has no saved connection.
pub const LOCAL_SESSION: &'static str = "";

/// A saved connection, as far as the window knows it.
#[derive(Debug)]
pub struct Profile {
    pub id: String,
    pub name: String,
    pub scheme: String,
    pub uri: String,
    /// Whether there is a schema for its scheme. Without one there is no form to edit it in.
    pub known: bool,
}

/// A [`Profile`] by what it holds.
pub struct ProfileState {
    pub id: Seq<char>,
    pub name: Seq<char>,
    pub scheme: Seq<char>,
    pub uri: Seq<char>,
    pub known: bool,
}

impl View for Profile {
    type V = ProfileState;

    open spec fn view(&self) -> ProfileState {
        ProfileState {
            id: self.id@,
            name: self.name@,
            scheme: self.scheme@,
            uri: self.uri@,
            known: self.known,
        }
    }
}

impl Profile {
    pub fn copy(&self) -> (r: Profile)
        ensures
            r == *self,
    {
        Profile {
            id: self.id.clone(),
            name: self.name.clone(),
            scheme: self.scheme.clone(),
            uri: self.uri.clone(),
            known: self.known,
        }
    }
}

/// Connections by what they hold.
pub open spec fn profiles_of(profiles: Seq<Profile>) -> Seq<ProfileState> {
    profiles.map_values(|p: Profile| p@)
}

/// A connection that was read from its file, with the names of the credentials that it
/// still expects elsewhere.
#[derive(Debug)]
pub struct LoadedProfile {
    pub profile: Profile,
    pub orphaned: Vec<String>,
}

/// What the window's banner says.
#[derive(Debug)]
pub enum Banner {
    /// Something is wrong with the connections' configuration.
    Config(String),
    /// What a failure said of itself.
    Failure(String),
}

/// A [`Banner`] by what it holds.
pub enum BannerState {
    Config(Seq<char>),
    Failure(Seq<char>),
}

impl View for Banner {
    type V = BannerState;

    open spec fn view(&self) -> BannerState {
        match self {
            Banner::Config(text) => BannerState::Config(text@),
            Banner::Failure(text) => BannerState::Failure(text@),
        }
    }
}

pub open spec fn banner_of(banner: Option<Banner>) -> Option<BannerState> {
    match banner {
        Some(banner) => Some(banner@),
        None => None,
    }
}

/// One browsing tab.
///
/// Each tab holds a pane with its own session, so one can sit on local disk while another
/// is elsewhere.
#[derive(Debug)]
pub struct BrowserTab<P> {
    pub id: usize,
    pub pane: P,
    /// The saved connection that the pane is on; the local session has none.
    pub profile: Option<String>,
}

/// A [`BrowserTab`] by what it holds.
pub struct TabState<P> {
    pub id: nat,
    pub pane: P,
    pub profile: Option<Seq<char>>,
}

impl<P> View for BrowserTab<P> {
    type V = TabState<P>;

    open spec fn view(&self) -> TabState<P> {
        TabState { id: self.id as nat, pane: self.pane, profile: text_option(self.profile) }
    }
}

/// Tabs by what they hold.
pub open spec fn tabs_of<P>(tabs: Seq<BrowserTab<P>>) -> Seq<TabState<P>> {
    tabs.map_values(|t: BrowserTab<P>| t@)
}

/// The window.
#[derive(Debug)]
pub struct Workspace<P> {
    profiles: Vec<Profile>,
    tabs: Vec<BrowserTab<P>>,
    active: usize,
    next_tab_id: usize,
    banner: Option<Banner>,
    shortcuts_open: bool,
}

/// A [`Workspace`] by what it holds.
pub struct Desk<P> {
    pub profiles: Seq<ProfileState>,
    pub tabs: Seq<TabState<P>>,
    pub active: nat,
    pub next_tab_id: nat,
    pub banner: Option<BannerState>,
    pub shortcuts_open: bool,
}

impl<P> View for Workspace<P> {
    type V = Desk<P>;

    closed spec fn view(&self) -> Desk<P> {
        Desk {
            profiles: profiles_of(self.profiles@),
            tabs: tabs_of(self.tabs@),
            active: self.active as nat,
            next_tab_id: self.next_tab_id as nat,
            banner: banner_of(self.banner),
            shortcuts_open: self.shortcuts_open,
        }
    }
}

impl<P> Desk<P> {
    /// There is always a tab, one of them is active, and no two have the same id.
    pub open spec fn valid(self) -> bool {
        &&& self.active < self.tabs.len()
        &&& forall|i: int| 0 <= i < self.tabs.len() ==> (#[trigger] self.tabs[i]).id
            < self.next_tab_id
        &&& forall|i: int, j: int|
            0 <= i < j < self.tabs.len() ==> (#[trigger] self.tabs[i]).id != (
            #[trigger] self.tabs[j]).id
    }

    /// The active tab.
    pub open spec fn active_tab(self) -> TabState<P> {
        self.tabs[self.active as int]
    }
}

// ── tabs ──────────────────────────────────────────────────────────────────

/// A window with one more tab, which is active.
pub open spec fn opened<P>(d: Desk<P>, pane: P, profile: Option<Seq<char>>) -> Desk<P> {
    Desk {
        tabs: d.tabs.push(TabState { id: d.next_tab_id, pane, profile }),
        active: d.tabs.len(),
        next_tab_id: d.next_tab_id + 1,
        ..d
    }
}

/// Whether the tab at a place can be closed. The last tab stays: an empty window with no
/// way back is not a state worth being able to reach.
pub open spec fn closable<P>(d: Desk<P>, ix: int) -> bool {
    d.tabs.len() > 1 && 0 <= ix < d.tabs.len()
}

/// A window without the tab at a place, where it can be closed. The tab that was active
/// stays active; where it is the one that goes, the next one is, or else the last one.
pub open spec fn closed<P>(d: Desk<P>, ix: int) -> Desk<P> {
    if closable(d, ix) {
        Desk {
            tabs: d.tabs.remove(ix),
            active: if d.active >= d.tabs.len() - 1 {
                (d.tabs.len() - 2) as nat
            } else if d.active > ix {
                (d.active - 1) as nat
            } else {
                d.active
            },
            ..d
        }
    } else {
        d
    }
}

/// A window with the tab at a place active, where there is such a tab.
pub open spec fn selected<P>(d: Desk<P>, ix: int) -> Desk<P> {
    if 0 <= ix < d.tabs.len() {
        Desk { active: ix as nat, ..d }
    } else {
        d
    }
}

/// The place of the tab after the active one; after the last comes the first.
pub open spec fn next_place<P>(d: Desk<P>) -> int {
    if d.active + 1 == d.tabs.len() {
        0
    } else {
        d.active + 1int
    }
}

/// The place of the tab before the active one; before the first comes the last.
pub open spec fn previous_place<P>(d: Desk<P>) -> int {
    if d.active == 0 {
        d.tabs.len() - 1
    } else {
        d.active - 1
    }
}

/// A window whose active tab is on a connection, or on the local session.
pub open spec fn reconnected<P>(d: Desk<P>, profile: Option<Seq<char>>) -> Desk<P> {
    Desk {
        tabs: d.tabs.update(d.active as int, TabState { profile, ..d.active_tab() }),
        banner: None,
        ..d
    }
}

// ── connections ───────────────────────────────────────────────────────────

/// Where the connection with an id stands: the first one, where several have it.
pub open spec fn place_of(profiles: Seq<ProfileState>, id: Seq<char>) -> Option<int>
    decreases profiles.len(),
{
    if profiles.len() == 0 {
        None
    } else if profiles[0].id == id {
        Some(0)
    } else {
        match place_of(profiles.drop_first(), id) {
            Some(i) => Some(i + 1),
            None => None,
        }
    }
}

/// The connections with one more, or with that one in the place of the one with its id.
pub open spec fn with_profile(profiles: Seq<ProfileState>, profile: ProfileState) -> Seq<
    ProfileState,
> {
    match place_of(profiles, profile.id) {
        Some(i) => profiles.update(i, profile),
        None => profiles.push(profile),
    }
}

/// The connections without those that have an id, in their order.
pub open spec fn without_profile(profiles: Seq<ProfileState>, id: Seq<char>) -> Seq<ProfileState>
    decreases profiles.len(),
{
    if profiles.len() == 0 {
        Seq::empty()
    } else {
        let rest = without_profile(profiles.drop_last(), id);
        if profiles.last().id == id {
            rest
        } else {
            rest.push(profiles.last())
        }
    }
}

/// The tabs, with those on a connection moved to the local session.
pub open spec fn fallen_back<P>(tabs: Seq<TabState<P>>, id: Seq<char>) -> Seq<TabState<P>> {
    tabs.map_values(
        |t: TabState<P>|
            if t.profile == Some(id) {
                TabState { profile: None, ..t }
            } else {
                t
            },
    )
}

/// A window without a connection. Any tab that was on it falls back to the local session.
pub open spec fn removed<P>(d: Desk<P>, id: Seq<char>) -> Desk<P> {
    Desk {
        profiles: without_profile(d.profiles, id),
        tabs: fallen_back(d.tabs, id),
        ..d
    }
}

/// What is said to connecting to the removed service.
pub const REMOVED_SERVICE: &'static str = "SFTP 已移除，无法连接";

/// Why a connection is not opened: because opening its session failed, or because it is one
/// of the removed service.
pub open spec fn refusal(p: ProfileState, session: Result<(), String>) -> Option<Seq<char>> {
    match session {
        Err(reason) => Some(reason@),
        Ok(_) => if p.scheme == REMOVED_SCHEME@ {
            Some(REMOVED_SERVICE@)
        } else {
            None
        },
    }
}

/// Whether a connection can be edited: there is a schema for it, and it is none of the
/// removed service.
pub open spec fn editable(p: ProfileState) -> bool {
    p.known && p.scheme != REMOVED_SCHEME@
}

/// What follows from connecting.
#[derive(Debug)]
pub enum Connect {
    /// There is no such connection.
    Unknown,
    /// The active pane is to move to the new session, and the tree to follow.
    Switched,
    /// The connection could not be opened, as the message says.
    Refused(String),
}

/// What follows from saving the form.
#[derive(Debug)]
pub enum Save {
    /// The form is done and the dialog closes. The connection with the id is to be connected
    /// at once.
    Done { notice: &'static str, connect: String },
    /// Nothing was saved, and the dialog stays open so that nothing typed is lost.
    KeepOpen { reason: String },
}

/// What follows from removing a connection.
#[derive(Debug)]
pub enum Removal {
    /// There is no such connection.
    Unknown,
    /// Nothing was removed, as the message says.
    Failed(String),
    /// It is gone. The panes of the tabs at these places are to move to the local session;
    /// where there are any, the tree is to follow the active one.
    Removed { tabs: Vec<usize>, notice: &'static str },
}

/// How a connection whose credentials are kept elsewhere is named in the banner.
pub open spec fn orphan_text(p: LoadedProfile) -> Seq<char> {
    p.profile.name@ + "（"@ + joined(texts(p.orphaned@), "、"@) + "）"@
}

/// The connections whose credentials are kept elsewhere, as the banner names them.
pub open spec fn orphan_texts(loaded: Seq<LoadedProfile>) -> Seq<Seq<char>>
    decreases loaded.len(),
{
    if loaded.len() == 0 {
        Seq::empty()
    } else {
        let rest = orphan_texts(loaded.drop_last());
        if loaded.last().orphaned@.len() > 0 {
            rest.push(orphan_text(loaded.last()))
        } else {
            rest
        }
    }
}

/// What the banner says when the window opens. A broken file must not keep the window from
/// opening, and neither must credentials that an older version put where this one does not
/// look: saying so beats a connection that fails for no visible cause.
pub open spec fn first_banner(loaded: Result<Vec<LoadedProfile>, String>) -> Option<BannerState> {
    match loaded {
        Err(reason) => Some(BannerState::Failure(reason@)),
        Ok(loaded) => if orphan_texts(loaded@).len() == 0 {
            None
        } else {
            Some(
                BannerState::Config(
                    "以下连接的凭据原先存放在系统钥匙串中，本版本不再读取，请重新填写："@ + joined(
                        orphan_texts(loaded@),
                        "；"@,
                    ),
                ),
            )
        },
    }
}

/// The connections that were read.
pub open spec fn first_profiles(loaded: Result<Vec<LoadedProfile>, String>) -> Seq<ProfileState> {
    match loaded {
        Err(_) => Seq::empty(),
        Ok(loaded) => loaded@.map_values(|p: LoadedProfile| p.profile@),
    }
}

/// A window as it opens: one tab, on the local session.
pub open spec fn first_desk<P>(loaded: Result<Vec<LoadedProfile>, String>, pane: P) -> Desk<P> {
    opened(
        Desk {
            profiles: first_profiles(loaded),
            tabs: Seq::empty(),
            active: 0,
            next_tab_id: 1,
            banner: first_banner(loaded),
            shortcuts_open: false,
        },
        pane,
        None,
    )
}

fn orphans(loaded: &Vec<LoadedProfile>) -> (r: Vec<String>)
    ensures
        texts(r@) == orphan_texts(loaded@),
{
    let mut r: Vec<String> = Vec::new();
    let mut i: usize = 0;
    assert(texts(r@) =~= orphan_texts(loaded@.take(0)));
    while i < loaded.len()
        invariant
            i <= loaded@.len(),
            texts(r@) == orphan_texts(loaded@.take(i as int)),
        decreases loaded@.len() - i,
    {
        let p = &loaded[i];
        assert(loaded@.take(i + 1).drop_last() =~= loaded@.take(i as int));
        if p.orphaned.len() > 0 {
            let ghost before = r@;
            let keys = join(&p.orphaned, "、");
            let named = cat3(p.profile.name.as_str(), "（", keys.as_str());
            r.push(cat(named.as_str(), "）"));
            assert(texts(r@) =~= texts(before).push(orphan_text(*p)));
        }
        i = i + 1;
    }
    assert(loaded@.take(i as int) =~= loaded@);
    r
}

fn copy_profiles(profiles: &Vec<Profile>) -> (r: Vec<Profile>)
    ensures
        r@ == profiles@,
{
    let mut r: Vec<Profile> = Vec::new();
    let mut i: usize = 0;
    while i < profiles.len()
        invariant
            i <= profiles@.len(),
            r@ == profiles@.take(i as int),
        decreases profiles@.len() - i,
    {
        r.push(profiles[i].copy());
        assert(r@ =~= profiles@.take(i + 1));
        i = i + 1;
    }
    assert(profiles@.take(i as int) =~= profiles@);
    r
}

proof fn lemma_place(profiles: Seq<ProfileState>, id: Seq<char>, i: int)
    requires
        0 <= i <= profiles.len(),
        forall|k: int| 0 <= k < i ==> (#[trigger] profiles[k]).id != id,
    ensures
        i < profiles.len() && profiles[i].id == id ==> place_of(profiles, id) == Some(i),
        i == profiles.len() ==> place_of(profiles, id) is None,
    decreases profiles.len(),
{
    if profiles.len() > 0 && i > 0 {
        let rest = profiles.drop_first();
        assert(profiles[0].id != id);
        assert forall|k: int| 0 <= k < i - 1 implies (#[trigger] rest[k]).id != id by {
            assert(rest[k] == profiles[k + 1]);
        }
        lemma_place(rest, id, i - 1);
    }
}

impl<P> Workspace<P> {
    /// A window with one tab on the local session. `loaded` is what came of reading the
    /// connections' file.
    pub fn new(loaded: Result<Vec<LoadedProfile>, String>, pane: P) -> (r: Workspace<P>)
        ensures
            r@ == first_desk(loaded, pane),
            r@.valid(),
    {
        let ghost given = loaded;
        let mut profiles: Vec<Profile> = Vec::new();
        let mut banner: Option<Banner> = None;
        match loaded {
            Err(reason) => {
                banner = Some(Banner::Failure(reason));
                assert(profiles_of(profiles@) =~= Seq::<ProfileState>::empty());
            },
            Ok(loaded) => {
                let names = orphans(&loaded);
                assert(names@.len() == texts(names@).len());
                if names.len() > 0 {
                    let all = join(&names, "；");
                    banner = Some(
                        Banner::Config(
                            cat(
                                "以下连接的凭据原先存放在系统钥匙串中，本版本不再读取，请重新填写：",
                                all.as_str(),
                            ),
                        ),
                    );
                }
                let mut i: usize = 0;
                while i < loaded.len()
                    invariant
                        i <= loaded@.len(),
                        profiles@.len() == i,
                        forall|k: int| 0 <= k < i ==> (#[trigger] profiles@[k]) == loaded@[k].profile,
                    decreases loaded@.len() - i,
                {
                    profiles.push(loaded[i].profile.copy());
                    i = i + 1;
                }
                assert(profiles_of(profiles@) =~= loaded@.map_values(|p: LoadedProfile| p.profile@));
            },
        }
        let tabs: Vec<BrowserTab<P>> = vec![BrowserTab { id: 1, pane, profile: None }];
        proof {
            assert(tabs_of(tabs@) =~= Seq::<TabState<P>>::empty().push(
                TabState { id: 1, pane, profile: None },
            ));
        }
        let r = Workspace {
            profiles,
            tabs,
            active: 0,
            next_tab_id: 2,
            banner,
            shortcuts_open: false,
        };
        assert(r@ == first_desk(given, pane));
        r
    }

    /// Puts a pane into a new tab and makes it active. Returns the tab's id.
    pub fn open_tab(&mut self, pane: P, profile: Option<String>) -> (r: usize)
        requires
            old(self)@.valid(),
            old(self)@.next_tab_id < usize::MAX,
        ensures
            r == old(self)@.next_tab_id,
            final(self)@ == opened(old(self)@, pane, text_option(profile)),
            final(self)@.valid(),
    {
        let ghost before = self@;
        let id: usize = self.next_tab_id;
        self.next_tab_id = id + 1;
        self.tabs.push(BrowserTab { id, pane, profile });
        proof {
            assert(tabs_of(self.tabs@) =~= before.tabs.push(
                TabState { id: id as nat, pane, profile: text_option(profile) },
            ));
        }
        self.active = self.tabs.len() - 1;
        proof {
            law_tabs_stay_valid(before, pane, text_option(profile), 0);
        }
        id
    }

    pub fn tabs(&self) -> (r: &Vec<BrowserTab<P>>)
        ensures
            tabs_of(r@) == self@.tabs,
    {
        &self.tabs
    }

    /// The active tab's place.
    pub fn active(&self) -> (r: usize)
        ensures
            r == self@.active,
    {
        self.active
    }

    /// The id that the next tab gets.
    pub fn next_tab_id(&self) -> (r: usize)
        ensures
            r == self@.next_tab_id,
    {
        self.next_tab_id
    }

    pub fn active_tab(&self) -> (r: &BrowserTab<P>)
        requires
            self@.valid(),
        ensures
            r@ == self@.active_tab(),
    {
        assert(self@.tabs[self.active as int] == self.tabs@[self.active as int]@);
        &self.tabs[self.active]
    }

    /// Puts a pane into a new tab beside the active one, on the same connection.
    pub fn action_new_tab(&mut self, pane: P) -> (r: usize)
        requires
            old(self)@.valid(),
            old(self)@.next_tab_id < usize::MAX,
        ensures
            r == old(self)@.next_tab_id,
            final(self)@ == opened(old(self)@, pane, old(self)@.active_tab().profile),
            final(self)@.valid(),
    {
        let profile = match &self.active_tab().profile {
            Some(id) => Some(id.clone()),
            None => None,
        };
        self.open_tab(pane, profile)
    }

    pub fn action_close_tab(&mut self) -> (r: bool)
        requires
            old(self)@.valid(),
        ensures
            r == closable(old(self)@, old(self)@.active as int),
            final(self)@ == closed(old(self)@, old(self)@.active as int),
            final(self)@.valid(),
    {
        let ix: usize = self.active;
        self.close_tab(ix)
    }

    /// Closes the tab at a place, and says whether it did: the tree is then to follow.
    pub fn close_tab(&mut self, ix: usize) -> (r: bool)
        requires
            old(self)@.valid(),
        ensures
            r == closable(old(self)@, ix as int),
            final(self)@ == closed(old(self)@, ix as int),
            final(self)@.valid(),
    {
        let ghost before = self@;
        if self.tabs.len() <= 1 || ix >= self.tabs.len() {
            return false;
        }
        let _ = self.tabs.remove(ix);
        assert(tabs_of(self.tabs@) =~= before.tabs.remove(ix as int));
        if self.active >= self.tabs.len() {
            self.active = self.tabs.len() - 1;
        } else if self.active > ix {
            self.active = self.active - 1;
        }
        proof {
            law_closing_stays_valid(before, ix as int);
        }
        true
    }

    /// Closes the tab with an id, where there is one.
    pub fn close_tab_by_id(&mut self, id: usize) -> (r: bool)
        requires
            old(self)@.valid(),
        ensures
            final(self)@.valid(),
            match tab_place(old(self)@, id as nat) {
                Some(ix) => r == closable(old(self)@, ix) && final(self)@ == closed(old(self)@, ix),
                None => !r && final(self)@ == old(self)@,
            },
    {
        let mut ix: usize = 0;
        while ix < self.tabs.len()
            invariant
                *self == *old(self),
                self@.valid(),
                ix <= self.tabs@.len(),
                forall|k: int| 0 <= k < ix ==> (#[trigger] self@.tabs[k]).id != id,
            decreases self.tabs@.len() - ix,
        {
            assert(self@.tabs[ix as int] == self.tabs@[ix as int]@);
            if self.tabs[ix].id == id {
                assert(tab_place(self@, id as nat) == Some(ix as int)) by {
                    let k = tab_place(self@, id as nat)->0;
                    assert(self@.tabs[k].id == self@.tabs[ix as int].id);
                }
                return self.close_tab(ix);
            }
            ix = ix + 1;
        }
        false
    }

    /// Makes the tab at a place active, and says whether that changes anything.
    pub fn select_tab(&mut self, ix: usize) -> (r: bool)
        requires
            old(self)@.valid(),
        ensures
            r == (ix < old(self)@.tabs.len() && ix != old(self)@.active),
            final(self)@ == selected(old(self)@, ix as int),
            final(self)@.valid(),
    {
        if ix >= self.tabs.len() || ix == self.active {
            return false;
        }
        self.active = ix;
        true
    }

    pub fn action_next_tab(&mut self) -> (r: bool)
        requires
            old(self)@.valid(),
        ensures
            r == (old(self)@.tabs.len() > 1),
            final(self)@ == selected(old(self)@, next_place(old(self)@)),
            final(self)@.valid(),
    {
        let last: usize = self.tabs.len() - 1;
        let next: usize = if self.active == last {
            0
        } else {
            self.active + 1
        };
        self.select_tab(next)
    }

    pub fn action_prev_tab(&mut self) -> (r: bool)
        requires
            old(self)@.valid(),
        ensures
            r == (old(self)@.tabs.len() > 1),
            final(self)@ == selected(old(self)@, previous_place(old(self)@)),
            final(self)@.valid(),
    {
        let previous: usize = if self.active == 0 {
            self.tabs.len() - 1
        } else {
            self.active - 1
        };
        self.select_tab(previous)
    }

    /// Whether the tree is to follow a tab: it follows the active one.
    pub fn follows(&self, tab_id: usize) -> (r: bool)
        requires
            self@.valid(),
        ensures
            r == (self@.active_tab().id == tab_id),
    {
        self.active_tab().id == tab_id
    }

    /// Moves the tree to the directory that a tab has moved to, if it is the active one, and
    /// says whether it did. A listing that finishes in a background tab must not move it.
    /// `rows` are those of the tree once it is there.
    pub fn tab_directory_changed(
        &self,
        tree: &mut DirTreeView,
        tab_id: usize,
        dir: &str,
        rows: Vec<TreeRow>,
    ) -> (r: bool)
        requires
            self@.valid(),
        ensures
            r == (self@.active_tab().id == tab_id),
            final(tree)@ == (if r {
                Tree { current: dir@, rows: rows@, ..old(tree)@ }
            } else {
                old(tree)@
            }),
    {
        if !self.follows(tab_id) {
            return false;
        }
        tree.set_current(dir, rows);
        true
    }

    /// Shows or hides dot-directories in the tree as a tab does, if it is the active one.
    /// Says whether the tree changed. `rows` are those of the tree with the new setting.
    pub fn tab_hidden_changed(
        &self,
        tree: &mut DirTreeView,
        tab_id: usize,
        show: bool,
        rows: Vec<TreeRow>,
    ) -> (r: bool)
        requires
            self@.valid(),
        ensures
            r == (self@.active_tab().id == tab_id && old(tree)@.show_hidden != show),
            final(tree)@ == followed(self@, old(tree)@, tab_id as nat, show, rows@),
    {
        if !self.follows(tab_id) {
            return false;
        }
        tree.set_show_hidden(show, rows)
    }

    pub fn profiles(&self) -> (r: &Vec<Profile>)
        ensures
            profiles_of(r@) == self@.profiles,
    {
        &self.profiles
    }

    /// Where the connection with an id stands.
    fn find(&self, id: &str) -> (r: Option<usize>)
        ensures
            match r {
                Some(i) => i < self.profiles@.len() && place_of(self@.profiles, id@) == Some(
                    i as int,
                ) && self.profiles@[i as int].id@ == id@,
                None => place_of(self@.profiles, id@) is None,
            },
    {
        let mut i: usize = 0;
        while i < self.profiles.len()
            invariant
                i <= self.profiles@.len(),
                forall|k: int| 0 <= k < i ==> (#[trigger] self@.profiles[k]).id != id@,
            decreases self.profiles@.len() - i,
        {
            assert(self@.profiles[i as int] == self.profiles@[i as int]@);
            if same(self.profiles[i].id.as_str(), id) {
                proof {
                    lemma_place(self@.profiles, id@, i as int);
                }
                return Some(i);
            }
            i = i + 1;
        }
        proof {
            lemma_place(self@.profiles, id@, i as int);
        }
        None
    }

    /// The connection with an id.
    pub fn profile(&self, id: &str) -> (r: Option<&Profile>)
        ensures
            match r {
                Some(p) => place_of(self@.profiles, id@) is Some && p@ == self@.profiles[place_of(
                    self@.profiles,
                    id@,
                )->0],
                None => place_of(self@.profiles, id@) is None,
            },
    {
        match self.find(id) {
            Some(i) => {
                assert(self@.profiles[i as int] == self.profiles@[i as int]@);
                Some(&self.profiles[i])
            },
            None => None,
        }
    }

    /// The connection that the active tab is on. There is none on the local session.
    pub fn active_profile(&self) -> (r: Option<&Profile>)
        requires
            self@.valid(),
        ensures
            match r {
                Some(p) => active_place(self@) is Some && p@ == self@.profiles[active_place(
                    self@,
                )->0],
                None => active_place(self@) is None,
            },
    {
        match &self.active_tab().profile {
            Some(id) => self.profile(id.as_str()),
            None => None,
        }
    }

    /// The ids that connections have.
    pub fn taken_ids(&self) -> (r: Vec<String>)
        ensures
            texts(r@) == self@.profiles.map_values(|p: ProfileState| p.id),
    {
        let mut r: Vec<String> = Vec::new();
        let mut i: usize = 0;
        while i < self.profiles.len()
            invariant
                i <= self.profiles@.len(),
                r@.len() == i,
                forall|k: int| 0 <= k < i ==> (#[trigger] r@[k])@ == self.profiles@[k].id@,
            decreases self.profiles@.len() - i,
        {
            r.push(self.profiles[i].id.clone());
            i = i + 1;
        }
        assert(texts(r@) =~= self@.profiles.map_values(|p: ProfileState| p.id));
        r
    }

    fn set_active_profile(&mut self, profile: Option<String>)
        requires
            old(self)@.valid(),
        ensures
            final(self)@ == reconnected(old(self)@, text_option(profile)),
            final(self)@.valid(),
    {
        let ghost before = self@;
        self.banner = None;
        let ix: usize = self.active;
        assert(before.tabs[ix as int] == self.tabs@[ix as int]@);
        self.tabs[ix].profile = profile;
        proof {
            assert(tabs_of(self.tabs@) =~= before.tabs.update(
                ix as int,
                TabState { profile: text_option(profile), ..before.active_tab() },
            ));
            law_connecting_changes_only_the_active_tab(before, text_option(profile));
        }
    }

    /// Moves the active tab to a connection. `session` is what came of opening it, and only
    /// matters where there is such a connection. One of the removed service is refused even
    /// then.
    ///
    /// Other tabs keep whatever they were showing.
    pub fn connect(&mut self, id: &str, session: Result<(), String>) -> (r: Connect)
        requires
            old(self)@.valid(),
        ensures
            final(self)@.valid(),
            connects(r, old(self)@, final(self)@, id@, session),
    {
        let i: usize = match self.find(id) {
            None => return Connect::Unknown,
            Some(i) => i,
        };
        assert(self@.profiles[i as int] == self.profiles@[i as int]@);
        let refused = match session {
            Err(reason) => Some(reason),
            Ok(()) => if same(self.profiles[i].scheme.as_str(), REMOVED_SCHEME) {
                Some(REMOVED_SERVICE.to_owned())
            } else {
                None
            },
        };
        match refused {
            Some(reason) => {
                self.banner = Some(Banner::Failure(reason.clone()));
                Connect::Refused(reason)
            },
            None => {
                self.set_active_profile(Some(id.to_owned()));
                Connect::Switched
            },
        }
    }

    /// Moves the active tab to the local session. Its pane is to follow.
    pub fn connect_local(&mut self)
        requires
            old(self)@.valid(),
        ensures
            final(self)@ == reconnected(old(self)@, None),
            final(self)@.valid(),
    {
        self.set_active_profile(None);
    }

    /// The connections to write when a form is saved.
    pub fn profiles_with(&self, profile: &Profile) -> (r: Vec<Profile>)
        ensures
            profiles_of(r@) == with_profile(self@.profiles, profile@),
    {
        let mut r = copy_profiles(&self.profiles);
        match self.find(profile.id.as_str()) {
            Some(i) => {
                r.set(i, profile.copy());
                assert(profiles_of(r@) =~= self@.profiles.update(i as int, profile@));
            },
            None => {
                r.push(profile.copy());
                assert(profiles_of(r@) =~= self@.profiles.push(profile@));
            },
        }
        r
    }

    /// Takes over a saved form. `built` is the connection it made, or why it made none, and
    /// `saved` what came of writing the connections.
    pub fn save_form(&mut self, built: Result<Profile, String>, saved: Result<(), String>) -> (r:
        Save)
        requires
            old(self)@.valid(),
        ensures
            final(self)@.valid(),
            saves(r, old(self)@, final(self)@, built, saved),
    {
        let profile = match built {
            Ok(profile) => profile,
            Err(reason) => return Save::KeepOpen { reason },
        };
        let profiles = self.profiles_with(&profile);
        match saved {
            Err(reason) => return Save::KeepOpen { reason },
            Ok(()) => {},
        }
        self.profiles = profiles;
        Save::Done { notice: "连接已保存", connect: profile.id }
    }

    /// The connections to write when one is removed. Nothing where there is no such one.
    pub fn profiles_without(&self, id: &str) -> (r: Option<Vec<Profile>>)
        ensures
            match r {
                Some(rest) => place_of(self@.profiles, id@) is Some && profiles_of(rest@)
                    == without_profile(self@.profiles, id@),
                None => place_of(self@.profiles, id@) is None,
            },
    {
        match self.find(id) {
            None => return None,
            Some(_) => {},
        }
        let ghost all = self@.profiles;
        let mut r: Vec<Profile> = Vec::new();
        let mut i: usize = 0;
        assert(profiles_of(r@) =~= Seq::<ProfileState>::empty());
        while i < self.profiles.len()
            invariant
                all == self@.profiles,
                i <= self.profiles@.len(),
                profiles_of(r@) == without_profile(all.take(i as int), id@),
            decreases self.profiles@.len() - i,
        {
            proof {
                assert(all.take(i + 1).drop_last() =~= all.take(i as int));
                assert(all.take(i + 1).last() == self.profiles@[i as int]@);
            }
            if !same(self.profiles[i].id.as_str(), id) {
                let ghost before = r@;
                r.push(self.profiles[i].copy());
                assert(profiles_of(r@) =~= profiles_of(before).push(self.profiles@[i as int]@));
            }
            i = i + 1;
        }
        assert(all.take(i as int) =~= all);
        Some(r)
    }

    /// Moves the tabs on a connection to the local session, and returns their places.
    fn fall_back(&mut self, id: &str) -> (r: Vec<usize>)
        ensures
            final(self)@ == (Desk { tabs: fallen_back(old(self)@.tabs, id@), ..old(self)@ }),
            r@.map_values(|ix: usize| ix as int) == tabs_on(old(self)@.tabs, id@),
    {
        let ghost before = self@;
        let mut r: Vec<usize> = Vec::new();
        let mut ix: usize = 0;
        assert(r@.map_values(|ix: usize| ix as int) =~= Seq::<int>::empty());
        while ix < self.tabs.len()
            invariant
                before == old(self)@,
                ix <= self.tabs@.len(),
                self.tabs@.len() == before.tabs.len(),
                self@ == (Desk { tabs: self@.tabs, ..before }),
                forall|k: int|
                    0 <= k < ix ==> (#[trigger] self@.tabs[k]) == fallen_back(before.tabs, id@)[k],
                forall|k: int| ix <= k < before.tabs.len() ==> (#[trigger] self@.tabs[k])
                    == before.tabs[k],
                r@.map_values(|ix: usize| ix as int) == tabs_on(before.tabs.take(ix as int), id@),
            decreases self.tabs@.len() - ix,
        {
            let ghost earlier = self@;
            proof {
                assert(before.tabs.take(ix + 1).drop_last() =~= before.tabs.take(ix as int));
                assert(earlier.tabs[ix as int] == self.tabs@[ix as int]@);
                assert(before.tabs[ix as int] == earlier.tabs[ix as int]);
            }
            let on = match &self.tabs[ix].profile {
                Some(profile) => same(profile.as_str(), id),
                None => false,
            };
            if on {
                self.tabs[ix].profile = None;
                let ghost listed = r@;
                r.push(ix);
                proof {
                    assert(self@.tabs =~= earlier.tabs.update(
                        ix as int,
                        TabState { profile: None, ..earlier.tabs[ix as int] },
                    ));
                    assert(r@.map_values(|ix: usize| ix as int) =~= listed.map_values(
                        |ix: usize| ix as int,
                    ).push(ix as int));
                }
            }
            ix = ix + 1;
        }
        assert(self@.tabs =~= fallen_back(before.tabs, id@));
        assert(before.tabs.take(ix as int) =~= before.tabs);
        r
    }

    /// Removes a connection. `saved` is what came of writing the others, and only matters
    /// where there is such a connection.
    pub fn remove_profile(&mut self, id: &str, saved: Result<(), String>) -> (r: Removal)
        requires
            old(self)@.valid(),
        ensures
            final(self)@.valid(),
            removes(r, old(self)@, final(self)@, id@, saved),
    {
        let ghost before = self@;
        let remaining = match self.profiles_without(id) {
            None => return Removal::Unknown,
            Some(remaining) => remaining,
        };
        match saved {
            Err(reason) => return Removal::Failed(reason),
            Ok(()) => {},
        }
        self.profiles = remaining;
        let tabs = self.fall_back(id);
        proof {
            law_removing_leaves_no_tab_behind(before, id@, 0);
        }
        Removal::Removed { tabs, notice: "连接已删除" }
    }

    /// What the banner says.
    pub fn banner(&self) -> (r: &Option<Banner>)
        ensures
            banner_of(*r) == self@.banner,
    {
        &self.banner
    }

    /// Opens or closes the list of shortcuts.
    pub fn toggle_shortcuts(&mut self)
        ensures
            final(self)@ == (Desk { shortcuts_open: !old(self)@.shortcuts_open, ..old(self)@ }),
    {
        self.shortcuts_open = !self.shortcuts_open;
    }
}

/// Whether a window and an answer are what follows from connecting.
pub open spec fn connects<P>(
    r: Connect,
    before: Desk<P>,
    after: Desk<P>,
    id: Seq<char>,
    session: Result<(), String>,
) -> bool {
    match place_of(before.profiles, id) {
        None => r is Unknown && after == before,
        Some(i) => match refusal(before.profiles[i], session) {
            Some(reason) => (r matches Connect::Refused(message) && message@ == reason) && after
                == (Desk { banner: Some(BannerState::Failure(reason)), ..before }),
            None => r is Switched && after == reconnected(before, Some(id)),
        },
    }
}

/// Whether a window and an answer are what follows from saving the form.
pub open spec fn saves<P>(
    r: Save,
    before: Desk<P>,
    after: Desk<P>,
    built: Result<Profile, String>,
    saved: Result<(), String>,
) -> bool {
    match r {
        Save::Done { notice, connect } => built is Ok && saved is Ok && notice@ == "连接已保存"@
            && connect@ == built->Ok_0@.id && after == (Desk {
            profiles: with_profile(before.profiles, built->Ok_0@),
            ..before
        }),
        Save::KeepOpen { reason } => after == before && match built {
            Err(message) => reason@ == message@,
            Ok(_) => saved is Err && reason@ == saved->Err_0@,
        },
    }
}

/// Whether a window and an answer are what follows from removing a connection.
pub open spec fn removes<P>(
    r: Removal,
    before: Desk<P>,
    after: Desk<P>,
    id: Seq<char>,
    saved: Result<(), String>,
) -> bool {
    match r {
        Removal::Unknown => place_of(before.profiles, id) is None && after == before,
        Removal::Failed(message) => place_of(before.profiles, id) is Some && saved is Err
            && message@ == saved->Err_0@ && after == before,
        Removal::Removed { tabs, notice } => place_of(before.profiles, id) is Some && saved is Ok
            && after == removed(before, id) && tabs@.map_values(|ix: usize| ix as int) == tabs_on(
            before.tabs,
            id,
        ) && notice@ == "连接已删除"@,
    }
}

/// The window's title.
pub open spec fn title_of<P>(d: Desk<P>, label: Seq<char>) -> Seq<char> {
    match active_place(d) {
        Some(i) => d.profiles[i].name + " · "@ + d.profiles[i].uri,
        None => "本机 · "@ + label,
    }
}

/// The tree after a tab has shown or hidden dotfiles: it does as the active tab does.
pub open spec fn followed<P>(
    d: Desk<P>,
    tree: Tree,
    tab_id: nat,
    show: bool,
    rows: Seq<TreeRow>,
) -> Tree {
    if d.active_tab().id == tab_id {
        with_hidden(tree, show, rows)
    } else {
        tree
    }
}

/// The place of the tab with an id.
pub open spec fn tab_place<P>(d: Desk<P>, id: nat) -> Option<int> {
    if exists|i: int| 0 <= i < d.tabs.len() && (#[trigger] d.tabs[i]).id == id {
        Some(choose|i: int| 0 <= i < d.tabs.len() && (#[trigger] d.tabs[i]).id == id)
    } else {
        None
    }
}

/// The place of the connection that the active tab is on.
pub open spec fn active_place<P>(d: Desk<P>) -> Option<int> {
    match d.active_tab().profile {
        Some(id) => place_of(d.profiles, id),
        None => None,
    }
}

/// The places of the tabs on a connection, in their order.
pub open spec fn tabs_on<P>(tabs: Seq<TabState<P>>, id: Seq<char>) -> Seq<int>
    decreases tabs.len(),
{
    if tabs.len() == 0 {
        Seq::empty()
    } else {
        let rest = tabs_on(tabs.drop_last(), id);
        if tabs.last().profile == Some(id) {
            rest.push(tabs.len() - 1)
        } else {
            rest
        }
    }
}

/// Points the tree at the active tab: its session, whether it shows dotfiles, and its
/// directory. `rows` are those of the tree once it is there.
pub fn sync_tree(tree: &mut DirTreeView, show_hidden: bool, cwd: &str, rows: Vec<TreeRow>)
    ensures
        final(tree)@ == (Tree { rows: rows@, current: cwd@, show_hidden }),
{
    tree.set_vfs();
    let _ = tree.set_show_hidden(show_hidden, Vec::new());
    tree.set_current(cwd, rows);
}

// ── what the window says ──────────────────────────────────────────────────

/// A row of the sidebar's list of connections.
#[derive(Debug)]
pub struct SidebarRow {
    pub row_id: String,
    /// The connection's id; that of the local session is empty.
    pub id: String,
    pub name: String,
    pub scheme: String,
    pub icon: Icon,
    pub active: bool,
    /// Whether it can be edited. A connection without a schema, or of the removed service,
    /// cannot.
    pub editable: bool,
    /// Whether it can be removed. Every connection can.
    pub removable: bool,
    /// The ids of the buttons, where it has them.
    pub edit_id: Option<String>,
    pub remove_id: Option<String>,
}

/// Whether a row shows a connection.
pub open spec fn row_shows(
    row: SidebarRow,
    id: Seq<char>,
    name: Seq<char>,
    scheme: Seq<char>,
    active: bool,
    editable: bool,
    removable: bool,
) -> bool {
    &&& row.row_id@ == "conn-"@ + id
    &&& row.id@ == id
    &&& row.name@ == name
    &&& row.scheme@ == scheme
    &&& row.icon == (if scheme == "fs"@ {
        Icon::FolderClosed
    } else {
        Icon::Globe
    })
    &&& row.active == active
    &&& row.editable == editable
    &&& row.removable == removable
    &&& text_option(row.edit_id) == (if editable {
        Some("edit-"@ + id)
    } else {
        None
    })
    &&& text_option(row.remove_id) == (if removable {
        Some("remove-"@ + id)
    } else {
        None
    })
}

fn sidebar_row(
    id: &str,
    name: &str,
    scheme: &str,
    active: bool,
    editable: bool,
    removable: bool,
) -> (r: SidebarRow)
    ensures
        row_shows(r, id@, name@, scheme@, active, editable, removable),
{
    SidebarRow {
        row_id: cat("conn-", id),
        id: id.to_owned(),
        name: name.to_owned(),
        scheme: scheme.to_owned(),
        icon: if same(scheme, "fs") {
            Icon::FolderClosed
        } else {
            Icon::Globe
        },
        active,
        editable,
        removable,
        edit_id: if editable {
            Some(cat("edit-", id))
        } else {
            None
        },
        remove_id: if removable {
            Some(cat("remove-", id))
        } else {
            None
        },
    }
}

/// What a click on a row of the sidebar does.
#[derive(Debug)]
pub enum SidebarClick {
    Local,
    Connect(String),
}

/// What a click on the row with an id does: the row of the local session has none.
pub fn click_row(id: &str) -> (r: SidebarClick)
    ensures
        match r {
            SidebarClick::Local => id@.len() == 0,
            SidebarClick::Connect(target) => id@.len() > 0 && target@ == id@,
        },
{
    if is_empty(id) {
        SidebarClick::Local
    } else {
        SidebarClick::Connect(id.to_owned())
    }
}

/// A tab, as the tab bar shows it.
#[derive(Debug)]
pub struct TabLabel {
    pub label: String,
    pub close_id: String,
    pub close_disabled: bool,
}

/// A tab's label: its session and where it is, as two tabs on one backend could not be told
/// apart otherwise. `basename` is the last part of the directory, empty at the root.
pub open spec fn label_of(session: Seq<char>, basename: Seq<char>) -> Seq<char> {
    session + " · "@ + (if basename.len() == 0 {
        "/"@
    } else {
        basename
    })
}

/// Something a backend can or cannot do.
#[derive(Clone, Copy, Debug)]
pub struct Flag {
    pub label: &'static str,
    pub supported: bool,
}

/// What a backend can do, in a few words: the difference between backends is visible before
/// anything is tried.
pub open spec fn flags_of(c: Capability) -> Seq<Flag> {
    seq![
        Flag { label: "重命名", supported: c.rename },
        Flag { label: "服务端复制", supported: c.copy },
        Flag { label: "分享链接", supported: c.presign },
        Flag { label: "递归删除", supported: c.delete_with_recursive },
        Flag { label: "版本", supported: c.list_with_versions },
    ]
}

pub fn capability_flags(c: Capability) -> (r: Vec<Flag>)
    ensures
        r@ == flags_of(c),
{
    let r: Vec<Flag> = vec![
        Flag { label: "重命名", supported: c.rename },
        Flag { label: "服务端复制", supported: c.copy },
        Flag { label: "分享链接", supported: c.presign },
        Flag { label: "递归删除", supported: c.delete_with_recursive },
        Flag { label: "版本", supported: c.list_with_versions },
    ];
    assert(r@ =~= flags_of(c));
    r
}

/// The foot of the sidebar.
#[derive(Debug)]
pub struct Footer {
    pub theme_icon: Icon,
    pub theme_tooltip: &'static str,
    /// Whether a click on the theme button makes the window dark.
    pub next_dark: bool,
    pub shortcuts_tooltip: &'static str,
    /// What each shortcut is bound to, while the list is open.
    pub hints: Vec<(&'static str, String)>,
}

/// Whether the hints are what the shortcuts are bound to.
pub open spec fn hints_show(
    hints: Seq<(&'static str, String)>,
    bindings: Map<Seq<char>, Seq<char>>,
) -> bool {
    &&& hints.len() == definitions().len()
    &&& forall|i: int|
        0 <= i < hints.len() ==> (#[trigger] hints[i]).0 == definitions()[i].label && hints[i].1@
            == binding_in(bindings, definitions()[i].id@)
}

fn hints(settings: &ShortcutSettings) -> (r: Vec<(&'static str, String)>)
    ensures
        hints_show(r@, settings@),
{
    let all = shortcuts();
    let mut r: Vec<(&'static str, String)> = Vec::new();
    let mut i: usize = 0;
    while i < all.len()
        invariant
            all@ == definitions(),
            i <= all@.len(),
            r@.len() == i,
            forall|k: int|
                0 <= k < i ==> (#[trigger] r@[k]).0 == definitions()[k].label && r@[k].1@
                    == binding_in(settings@, definitions()[k].id@),
        decreases all@.len() - i,
    {
        r.push((all[i].label, settings.get(all[i].id).to_owned()));
        i = i + 1;
    }
    r
}

/// The dialog around the connection form. `editing` is the name of the connection that is
/// edited.
pub fn form_dialog(editing: Option<&str>) -> (r: Dialog)
    ensures
        r.title@ == (match editing {
            Some(name) => "编辑连接 · "@ + name@,
            None => "新建连接"@,
        }),
        r.width == 520,
        r.overlay_closable && r.close_button,
        r.footer@ == question("保存", ButtonStyle::Primary, "取消"),
        r.enter_runs,
{
    let title = match editing {
        Some(name) => cat("编辑连接 · ", name),
        None => "新建连接".to_owned(),
    };
    Dialog::new(title, 520).confirm_cancel("保存", "取消")
}

impl<P> Workspace<P> {
    /// The window's title. `label` is the active pane's session.
    pub fn title(&self, label: &str) -> (r: String)
        requires
            self@.valid(),
        ensures
            r@ == title_of(self@, label@),
    {
        match self.active_profile() {
            Some(p) => cat3(p.name.as_str(), " · ", p.uri.as_str()),
            None => cat("本机 · ", label),
        }
    }

    /// The sidebar's list: the local session, and then the connections.
    pub fn sidebar(&self) -> (r: Vec<SidebarRow>)
        requires
            self@.valid(),
        ensures
            r@.len() == self@.profiles.len() + 1,
            row_shows(
                r@[0],
                Seq::empty(),
                "本机"@,
                "fs"@,
                self@.active_tab().profile is None,
                false,
                false,
            ),
            forall|i: int|
                0 <= i < self@.profiles.len() ==> row_shows(
                    #[trigger] r@[i + 1],
                    self@.profiles[i].id,
                    self@.profiles[i].name,
                    self@.profiles[i].scheme,
                    self@.active_tab().profile == Some(self@.profiles[i].id),
                    editable(self@.profiles[i]),
                    true,
                ),
    {
        let on = &self.active_tab().profile;
        let local_active = match on {
            Some(_) => false,
            None => true,
        };
        let mut r: Vec<SidebarRow> = Vec::new();
        proof {
            reveal_strlit("");
            assert(""@ =~= Seq::<char>::empty());
        }
        r.push(sidebar_row(LOCAL_SESSION, "本机", "fs", local_active, false, false));
        let mut i: usize = 0;
        while i < self.profiles.len()
            invariant
                i <= self.profiles@.len(),
                text_option(*on) == self@.active_tab().profile,
                r@.len() == i + 1,
                row_shows(
                    r@[0],
                    Seq::empty(),
                    "本机"@,
                    "fs"@,
                    self@.active_tab().profile is None,
                    false,
                    false,
                ),
                forall|k: int|
                    0 <= k < i ==> row_shows(
                        #[trigger] r@[k + 1],
                        self@.profiles[k].id,
                        self@.profiles[k].name,
                        self@.profiles[k].scheme,
                        self@.active_tab().profile == Some(self@.profiles[k].id),
                        editable(self@.profiles[k]),
                        true,
                    ),
            decreases self.profiles@.len() - i,
        {
            let p = &self.profiles[i];
            assert(self@.profiles[i as int] == p@);
            let active = match on {
                Some(id) => same(id.as_str(), p.id.as_str()),
                None => false,
            };
            r.push(
                sidebar_row(
                    p.id.as_str(),
                    p.name.as_str(),
                    p.scheme.as_str(),
                    active,
                    p.known && !same(p.scheme.as_str(), REMOVED_SCHEME),
                    true,
                ),
            );
            i = i + 1;
        }
        r
    }

    /// The tab at a place, as the tab bar shows it. `session` is its pane's session, and
    /// `basename` the last part of its directory.
    pub fn tab_label(&self, ix: usize, session: &str, basename: &str) -> (r: TabLabel)
        requires
            ix < self@.tabs.len(),
        ensures
            r.label@ == label_of(session@, basename@),
            r.close_id@ == "close-tab-"@ + decimal(self@.tabs[ix as int].id),
            r.close_disabled == (self@.tabs.len() <= 1),
    {
        assert(self@.tabs[ix as int] == self.tabs@[ix as int]@);
        let place = if is_empty(basename) {
            "/"
        } else {
            basename
        };
        TabLabel {
            label: cat3(session, " · ", place),
            close_id: cat("close-tab-", number(self.tabs[ix].id as u64).as_str()),
            close_disabled: self.tabs.len() <= 1,
        }
    }

    /// The foot of the sidebar. `dark` says whether the window is dark.
    pub fn footer(&self, dark: bool, settings: &ShortcutSettings) -> (r: Footer)
        ensures
            r.theme_icon == (if dark {
                Icon::Sun
            } else {
                Icon::Moon
            }),
            r.theme_tooltip@ == (if dark {
                "切换到亮色"@
            } else {
                "切换到暗色"@
            }),
            r.next_dark == !dark,
            r.shortcuts_tooltip@ == "快捷键"@,
            if self@.shortcuts_open {
                hints_show(r.hints@, settings@)
            } else {
                r.hints@.len() == 0
            },
    {
        let theme_tooltip: &'static str = if dark {
            "切换到亮色"
        } else {
            "切换到暗色"
        };
        Footer {
            theme_icon: if dark {
                Icon::Sun
            } else {
                Icon::Moon
            },
            theme_tooltip,
            next_dark: !dark,
            shortcuts_tooltip: "快捷键",
            hints: if self.shortcuts_open {
                hints(settings)
            } else {
                Vec::new()
            },
        }
    }
}

// ── laws ──────────────────────────────────────────────────────────────────

/// Opening a tab and switching to one keep the window valid.
pub proof fn law_tabs_stay_valid<P>(d: Desk<P>, pane: P, profile: Option<Seq<char>>, ix: int)
    requires
        d.valid(),
    ensures
        opened(d, pane, profile).valid(),
        selected(d, ix).valid(),
        opened(d, pane, profile).active_tab().pane == pane,
        opened(d, pane, profile).active_tab().profile == profile,
        opened(d, pane, profile).tabs.drop_last() == d.tabs,
{
    let o = opened(d, pane, profile);
    assert forall|i: int| 0 <= i < o.tabs.len() implies (#[trigger] o.tabs[i]).id < o.next_tab_id by {
        if i < d.tabs.len() {
            assert(o.tabs[i] == d.tabs[i]);
        }
    }
    assert forall|i: int, j: int| 0 <= i < j < o.tabs.len() implies (#[trigger] o.tabs[i]).id != (
    #[trigger] o.tabs[j]).id by {
        assert(o.tabs[i] == d.tabs[i]);
        if j < d.tabs.len() {
            assert(o.tabs[j] == d.tabs[j]);
        }
    }
    assert(o.tabs.drop_last() =~= d.tabs);
}

/// Closing a tab keeps the window valid and every other tab, in its order.
pub proof fn law_closing_stays_valid<P>(d: Desk<P>, ix: int)
    requires
        d.valid(),
    ensures
        closed(d, ix).valid(),
        closable(d, ix) ==> closed(d, ix).tabs == d.tabs.take(ix) + d.tabs.skip(ix + 1),
        closable(d, ix) ==> closed(d, ix).tabs.len() == d.tabs.len() - 1,
{
    if closable(d, ix) {
        let c = closed(d, ix);
        assert(c.tabs =~= d.tabs.take(ix) + d.tabs.skip(ix + 1));
        assert forall|i: int| 0 <= i < c.tabs.len() implies (#[trigger] c.tabs[i]).id
            < c.next_tab_id by {
            let k = if i < ix {
                i
            } else {
                i + 1
            };
            assert(c.tabs[i] == d.tabs[k]);
        }
        assert forall|i: int, j: int| 0 <= i < j < c.tabs.len() implies (#[trigger] c.tabs[i]).id
            != (#[trigger] c.tabs[j]).id by {
            let k = if i < ix {
                i
            } else {
                i + 1
            };
            let l = if j < ix {
                j
            } else {
                j + 1
            };
            assert(c.tabs[i] == d.tabs[k]);
            assert(c.tabs[j] == d.tabs[l]);
        }
    }
}

/// Closing a tab in the background leaves the active tab active.
pub proof fn law_closing_keeps_the_active_tab<P>(d: Desk<P>, ix: int)
    requires
        d.valid(),
        ix != d.active,
    ensures
        closed(d, ix).active_tab() == d.active_tab(),
{
    if closable(d, ix) {
        let c = closed(d, ix);
        if d.active > ix {
            assert(c.tabs[d.active - 1] == d.tabs[d.active as int]);
        } else {
            assert(c.tabs[d.active as int] == d.tabs[d.active as int]);
        }
    }
}

/// The last tab cannot be closed.
pub proof fn law_the_last_tab_stays<P>(d: Desk<P>, ix: int)
    requires
        d.tabs.len() == 1,
    ensures
        closed(d, ix) == d,
{
}

/// Switching to the next tab and back again changes nothing, and neither does the other
/// way round.
pub proof fn law_next_and_previous_undo_each_other<P>(d: Desk<P>)
    requires
        d.valid(),
    ensures
        ({
            let next = selected(d, next_place(d));
            selected(next, previous_place(next)) == d
        }),
        ({
            let previous = selected(d, previous_place(d));
            selected(previous, next_place(previous)) == d
        }),
{
}

/// Switching wraps around: after as many steps as there are tabs the same tab is active.
pub proof fn law_switching_tabs_wraps_around<P>(d: Desk<P>)
    requires
        d.valid(),
    ensures
        steps(d, d.tabs.len()) == d,
{
    lemma_steps(d, d.tabs.len());
}

/// The window after switching to the next tab some times.
pub open spec fn steps<P>(d: Desk<P>, n: nat) -> Desk<P>
    decreases n,
{
    if n == 0 {
        d
    } else {
        let before = steps(d, (n - 1) as nat);
        selected(before, next_place(before))
    }
}

proof fn lemma_steps<P>(d: Desk<P>, n: nat)
    requires
        d.valid(),
        n <= d.tabs.len(),
    ensures
        steps(d, n) == (Desk {
            active: if d.active + n < d.tabs.len() {
                d.active + n
            } else {
                (d.active + n - d.tabs.len()) as nat
            },
            ..d
        }),
    decreases n,
{
    if n > 0 {
        lemma_steps(d, (n - 1) as nat);
    }
}

/// Connecting changes the active tab's connection and nothing else of any tab, and keeps
/// the window valid.
pub proof fn law_connecting_changes_only_the_active_tab<P>(d: Desk<P>, profile: Option<Seq<char>>)
    requires
        d.valid(),
    ensures
        reconnected(d, profile).valid(),
        reconnected(d, profile).active_tab() == (TabState { profile, ..d.active_tab() }),
        reconnected(d, profile).tabs.len() == d.tabs.len(),
        forall|i: int|
            0 <= i < d.tabs.len() && i != d.active ==> (#[trigger] reconnected(d, profile).tabs[i])
                == d.tabs[i],
        reconnected(d, profile).profiles == d.profiles,
{
    let r = reconnected(d, profile);
    assert forall|i: int| 0 <= i < r.tabs.len() implies (#[trigger] r.tabs[i]).id
        == d.tabs[i].id by {}
}

/// A removed connection is gone, no tab is on it any more, and every tab that was not on it
/// is as it was.
pub proof fn law_removing_leaves_no_tab_behind<P>(d: Desk<P>, id: Seq<char>, i: int)
    requires
        d.valid(),
    ensures
        removed(d, id).valid(),
        place_of(removed(d, id).profiles, id) is None,
        removed(d, id).tabs.len() == d.tabs.len(),
        0 <= i < d.tabs.len() ==> removed(d, id).tabs[i].profile != Some(id),
        0 <= i < d.tabs.len() ==> removed(d, id).tabs[i].pane == d.tabs[i].pane,
        0 <= i < d.tabs.len() && d.tabs[i].profile != Some(id) ==> removed(d, id).tabs[i]
            == d.tabs[i],
        0 <= i < d.tabs.len() && d.tabs[i].profile == Some(id) ==> removed(d, id).tabs[i].profile
            is None,
{
    let r = removed(d, id);
    assert forall|k: int| 0 <= k < r.tabs.len() implies (#[trigger] r.tabs[k]).id
        == d.tabs[k].id by {}
    lemma_without(d.profiles, id);
    lemma_place(r.profiles, id, r.profiles.len() as int);
}

/// What is left has another id, and was there before.
proof fn lemma_without(profiles: Seq<ProfileState>, id: Seq<char>)
    ensures
        forall|k: int|
            0 <= k < without_profile(profiles, id).len() ==> (#[trigger] without_profile(
                profiles,
                id,
            )[k]).id != id && profiles.contains(without_profile(profiles, id)[k]),
    decreases profiles.len(),
{
    if profiles.len() > 0 {
        let rest = profiles.drop_last();
        lemma_without(rest, id);
        let all = without_profile(profiles, id);
        let before = without_profile(rest, id);
        assert forall|k: int| 0 <= k < all.len() implies (#[trigger] all[k]).id != id
            && profiles.contains(all[k]) by {
            if k < before.len() {
                assert(all[k] == before[k]);
                let j = choose|j: int| 0 <= j < rest.len() && rest[j] == before[k];
                assert(profiles[j] == all[k]);
            } else {
                assert(profiles[profiles.len() - 1] == all[k]);
            }
        }
    }
}

/// A saved connection is the one that is found under its id, and saving it changes no other.
pub proof fn law_saved_profiles_are_found(
    profiles: Seq<ProfileState>,
    profile: ProfileState,
    other: Seq<char>,
)
    ensures
        ({
            let saved = with_profile(profiles, profile);
            &&& place_of(saved, profile.id) is Some
            &&& saved[place_of(saved, profile.id)->0] == profile
            &&& other != profile.id ==> place_of(saved, other) == place_of(profiles, other)
            &&& other != profile.id && place_of(profiles, other) is Some
                ==> saved[place_of(saved, other)->0] == profiles[place_of(profiles, other)->0]
        }),
{
    let saved = with_profile(profiles, profile);
    lemma_first_place(profiles, profile.id);
    lemma_first_place(profiles, other);
    let at = match place_of(profiles, profile.id) {
        Some(i) => i,
        None => profiles.len() as int,
    };
    assert(saved[at] == profile);
    assert forall|k: int| 0 <= k < at implies (#[trigger] saved[k]).id != profile.id by {
        assert(saved[k] == profiles[k]);
    }
    lemma_place(saved, profile.id, at);
    if other != profile.id {
        let there = match place_of(profiles, other) {
            Some(i) => i,
            None => saved.len() as int,
        };
        assert forall|k: int| 0 <= k < there implies (#[trigger] saved[k]).id != other by {
            if k != at {
                assert(saved[k] == profiles[k]);
            }
        }
        if place_of(profiles, other) is Some {
            assert(saved[there] == profiles[there]);
        }
        lemma_place(saved, other, there);
    }
}

/// What stands before the place of an id has another one.
proof fn lemma_first_place(profiles: Seq<ProfileState>, id: Seq<char>)
    ensures
        match place_of(profiles, id) {
            Some(i) => 0 <= i < profiles.len() && profiles[i].id == id && forall|k: int|
                0 <= k < i ==> (#[trigger] profiles[k]).id != id,
            None => forall|k: int| 0 <= k < profiles.len() ==> (#[trigger] profiles[k]).id != id,
        },
    decreases profiles.len(),
{
    if profiles.len() > 0 && profiles[0].id != id {
        let rest = profiles.drop_first();
        lemma_first_place(rest, id);
        let end = match place_of(rest, id) {
            Some(i) => {
                assert(rest[i] == profiles[i + 1]);
                i + 1
            },
            None => profiles.len() as int,
        };
        assert forall|k: int| 0 <= k < end implies (#[trigger] profiles[k]).id != id by {
            if k > 0 {
                assert(rest[k - 1] == profiles[k]);
            }
        }
    }
}

/// Showing or hiding dotfiles in the active tab reaches the tree, so the pane and the tree
/// agree, and the tree has the rows of its new setting; doing it twice restores both. Nothing
/// is listed for it, and a tab in the background leaves the tree alone. `rows` is what the
/// tree shows under either setting.
pub proof fn law_the_hidden_toggle_reaches_the_tree<P>(
    d: Desk<P>,
    t: TableState,
    view: Seq<u32>,
    tree: Tree,
    rows: spec_fn(bool) -> Seq<TreeRow>,
    tab_id: nat,
)
    requires
        d.valid(),
        tree.show_hidden == t.show_hidden,
        tree.rows == rows(tree.show_hidden),
        t.view == visible(t.entries, view, t.show_hidden),
    ensures
        ({
            let once = shown_hidden(t, view, !t.show_hidden);
            let tree_once = followed(d, tree, tab_id, once.show_hidden, rows(once.show_hidden));
            let twice = shown_hidden(once, view, !once.show_hidden);
            let tree_twice = followed(
                d,
                tree_once,
                tab_id,
                twice.show_hidden,
                rows(twice.show_hidden),
            );
            &&& once.show_hidden != t.show_hidden
            &&& once.entries == t.entries
            &&& twice == t
            &&& d.active_tab().id == tab_id ==> tree_once.show_hidden == once.show_hidden
                && tree_once.rows == rows(once.show_hidden) && tree_twice == tree
            &&& d.active_tab().id != tab_id ==> tree_once == tree && tree_twice == tree
        }),
{
}

/// A connection of the removed service offers to be removed and not to be edited, is refused
/// even where its session opens, and leaves nothing behind when it is removed.
pub proof fn law_the_removed_service_can_only_be_removed<P>(
    d: Desk<P>,
    row: SidebarRow,
    i: int,
    active: bool,
    session: Result<(), String>,
)
    requires
        d.valid(),
        0 <= i < d.profiles.len(),
        d.profiles[i].scheme == REMOVED_SCHEME@,
        row_shows(
            row,
            d.profiles[i].id,
            d.profiles[i].name,
            d.profiles[i].scheme,
            active,
            editable(d.profiles[i]),
            true,
        ),
    ensures
        !row.editable && row.edit_id is None,
        row.removable && row.remove_id is Some,
        refusal(d.profiles[i], session) is Some,
        place_of(removed(d, d.profiles[i].id).profiles, d.profiles[i].id) is None,
{
    law_removing_leaves_no_tab_behind(d, d.profiles[i].id, 0);
}

/// Every other connection is refused only where its session does not open.
pub proof fn law_other_connections_continue_to_work(p: ProfileState, session: Result<(), String>)
    requires
        p.scheme != REMOVED_SCHEME@,
    ensures
        refusal(p, session) is Some <==> session is Err,
{
}

/// A window has a tab, one of its tabs is active, and ids tell its tabs apart; the next tab
/// gets an id that none has.
pub proof fn law_valid_windows<P>(d: Desk<P>, i: int, j: int)
    requires
        d.valid(),
    ensures
        d.tabs.len() > 0,
        0 <= d.active < d.tabs.len(),
        d.active_tab() == d.tabs[d.active as int],
        0 <= i < d.tabs.len() ==> d.tabs[i].id != d.next_tab_id,
        0 <= i < d.tabs.len() && 0 <= j < d.tabs.len() && i != j ==> d.tabs[i].id != d.tabs[j].id,
{
    if 0 <= i < d.tabs.len() && 0 <= j < d.tabs.len() && i != j {
        if i < j {
            assert(d.tabs[i].id != d.tabs[j].id);
        } else {
            assert(d.tabs[j].id != d.tabs[i].id);
        }
    }
}

/// A tab is opened behind the others with an id of its own and becomes active; nothing else of
/// the window changes.
pub proof fn law_opening<P>(d: Desk<P>, pane: P, profile: Option<Seq<char>>)
    ensures
        ({
            let o = opened(d, pane, profile);
            &&& o.tabs.len() == d.tabs.len() + 1
            &&& o.tabs.last().id == d.next_tab_id && o.tabs.last().pane == pane
                && o.tabs.last().profile == profile
            &&& o.active == d.tabs.len() && o.next_tab_id == d.next_tab_id + 1
            &&& forall|i: int| 0 <= i < d.tabs.len() ==> (#[trigger] o.tabs[i]) == d.tabs[i]
            &&& o.profiles == d.profiles && o.banner == d.banner && o.shortcuts_open
                == d.shortcuts_open
        }),
{
}

/// Any tab can be closed but the last one. Where the active tab is closed, the one behind it
/// becomes active, or the one before it where it was the last in the row. Nothing but the tabs
/// changes.
pub proof fn law_closing<P>(d: Desk<P>, ix: int)
    requires
        d.valid(),
    ensures
        closable(d, ix) <==> d.tabs.len() > 1 && 0 <= ix < d.tabs.len(),
        !closable(d, ix) ==> closed(d, ix) == d,
        closable(d, ix) && ix == d.active && ix + 1 < d.tabs.len() ==> closed(d, ix).active_tab()
            == d.tabs[ix + 1],
        closable(d, ix) && ix == d.active && ix + 1 == d.tabs.len() ==> closed(d, ix).active_tab()
            == d.tabs[ix - 1],
        closed(d, ix).profiles == d.profiles,
        closed(d, ix).banner == d.banner,
        closed(d, ix).next_tab_id == d.next_tab_id,
        closed(d, ix).shortcuts_open == d.shortcuts_open,
{
}

/// Choosing a tab makes it active and changes nothing else; where there is no such tab nothing
/// changes at all. The next tab is one further and the one before one less, both around the
/// end.
pub proof fn law_choosing_tabs<P>(d: Desk<P>, ix: int)
    requires
        d.valid(),
    ensures
        0 <= ix < d.tabs.len() ==> selected(d, ix) == (Desk { active: ix as nat, ..d }),
        !(0 <= ix < d.tabs.len()) ==> selected(d, ix) == d,
        next_place(d) == (d.active + 1) as int % (d.tabs.len() as int),
        previous_place(d) == (d.active + d.tabs.len() - 1) % (d.tabs.len() as int),
{
    let n = d.tabs.len();
    if d.active + 1 == n {
        vstd::arithmetic::div_mod::lemma_mod_self_0(n as int);
    } else {
        vstd::arithmetic::div_mod::lemma_small_mod((d.active + 1) as nat, n);
    }
    if d.active == 0 {
        vstd::arithmetic::div_mod::lemma_small_mod((n - 1) as nat, n);
    } else {
        vstd::arithmetic::div_mod::lemma_small_mod((d.active - 1) as nat, n);
        vstd::arithmetic::div_mod::lemma_mod_add_multiples_vanish(d.active - 1, n as int);
        assert(n as int + (d.active - 1) == d.active + n - 1);
    }
}

/// Connecting clears the banner; it opens and closes no tab, and makes no other one active.
pub proof fn law_connecting<P>(d: Desk<P>, profile: Option<Seq<char>>)
    ensures
        reconnected(d, profile).banner is None,
        reconnected(d, profile).active == d.active,
        reconnected(d, profile).next_tab_id == d.next_tab_id,
        reconnected(d, profile).shortcuts_open == d.shortcuts_open,
        reconnected(d, profile).profiles == d.profiles,
{
}

/// A connection is found by its id: the first that has it, and none where none has.
pub proof fn law_connections_are_found(profiles: Seq<ProfileState>, id: Seq<char>)
    ensures
        place_of(profiles, id) matches Some(i) ==> 0 <= i < profiles.len() && profiles[i].id == id
            && forall|k: int| 0 <= k < i ==> (#[trigger] profiles[k]).id != id,
        place_of(profiles, id) is None ==> forall|k: int|
            0 <= k < profiles.len() ==> (#[trigger] profiles[k]).id != id,
{
    lemma_first_place(profiles, id);
}

/// Saving a connection puts it in the place of the one with its id, or behind the others where
/// there is none; every other one stays where it is, as it is.
pub proof fn law_saving_keeps_the_others(
    profiles: Seq<ProfileState>,
    profile: ProfileState,
    i: int,
)
    ensures
        place_of(profiles, profile.id) matches Some(at) ==> with_profile(profiles, profile).len()
            == profiles.len() && with_profile(profiles, profile)[at] == profile,
        place_of(profiles, profile.id) is None ==> with_profile(profiles, profile).len()
            == profiles.len() + 1 && with_profile(profiles, profile).last() == profile,
        0 <= i < profiles.len() && place_of(profiles, profile.id) != Some(i) ==> with_profile(
            profiles,
            profile,
        )[i] == profiles[i],
{
    lemma_first_place(profiles, profile.id);
}

/// Removing a connection keeps every other one, in order: what is left of two lists, one behind
/// the other, is what is left of each, and one connection alone goes exactly where it has the
/// id.
pub proof fn law_removing_keeps_the_others(
    front: Seq<ProfileState>,
    back: Seq<ProfileState>,
    profile: ProfileState,
    id: Seq<char>,
)
    ensures
        without_profile(Seq::empty(), id).len() == 0,
        without_profile(seq![profile], id) == (if profile.id == id {
            Seq::<ProfileState>::empty()
        } else {
            seq![profile]
        }),
        without_profile(front + back, id) == without_profile(front, id) + without_profile(back, id),
        without_profile(front, id) == front.filter(|p: ProfileState| p.id != id),
    decreases front.len() + back.len(),
{
    reveal(Seq::filter);
    reveal_with_fuel(without_profile, 2);
    assert(seq![profile].drop_last() =~= Seq::<ProfileState>::empty());
    assert(without_profile(seq![profile], id) =~= (if profile.id == id {
        Seq::<ProfileState>::empty()
    } else {
        seq![profile]
    }));
    if back.len() == 0 {
        assert(front + back =~= front);
        assert(without_profile(front, id) + without_profile(back, id) =~= without_profile(
            front,
            id,
        ));
        if front.len() > 0 {
            law_removing_keeps_the_others(front.drop_last(), back, profile, id);
        }
        assert(without_profile(front, id) =~= front.filter(|p: ProfileState| p.id != id));
    } else {
        law_removing_keeps_the_others(front, back.drop_last(), profile, id);
        assert((front + back).drop_last() =~= front + back.drop_last());
        assert(without_profile(front + back, id) =~= without_profile(front, id) + without_profile(
            back,
            id,
        ));
    }
}

/// After a connection was removed, every other one is still there and is found as before, and
/// the window is as it was but for its tabs' connections.
pub proof fn law_other_connections_stay<P>(d: Desk<P>, id: Seq<char>, other: Seq<char>, i: int)
    requires
        other != id,
    ensures
        0 <= i < d.profiles.len() && d.profiles[i].id != id ==> removed(d, id).profiles.contains(
            d.profiles[i],
        ),
        place_of(removed(d, id).profiles, other) is Some <==> place_of(d.profiles, other) is Some,
        place_of(d.profiles, other) is Some ==> removed(d, id).profiles[place_of(
            removed(d, id).profiles,
            other,
        )->0] == d.profiles[place_of(d.profiles, other)->0],
        removed(d, id).active == d.active,
        removed(d, id).next_tab_id == d.next_tab_id,
        removed(d, id).banner == d.banner,
        removed(d, id).shortcuts_open == d.shortcuts_open,
        0 <= i < d.tabs.len() ==> removed(d, id).tabs[i].id == d.tabs[i].id,
{
    lemma_left(d.profiles, id, other);
    lemma_stays(d.profiles, id);
}

proof fn lemma_stays(profiles: Seq<ProfileState>, id: Seq<char>)
    ensures
        forall|i: int|
            0 <= i < profiles.len() && (#[trigger] profiles[i]).id != id ==> without_profile(
                profiles,
                id,
            ).contains(profiles[i]),
    decreases profiles.len(),
{
    if profiles.len() > 0 {
        let rest = profiles.drop_last();
        lemma_stays(rest, id);
        let before = without_profile(rest, id);
        let all = without_profile(profiles, id);
        assert forall|i: int| 0 <= i < profiles.len() && (#[trigger] profiles[i]).id
            != id implies all.contains(profiles[i]) by {
            if i < rest.len() {
                assert(rest[i] == profiles[i]);
                assert(before.contains(rest[i]));
                let k = choose|k: int| 0 <= k < before.len() && before[k] == rest[i];
                assert(all[k] == profiles[i]);
            } else {
                assert(all[all.len() - 1] == profiles[i]);
            }
        }
    }
}

/// Another id is found among what is left exactly where it was found, with the same connection.
proof fn lemma_left(profiles: Seq<ProfileState>, id: Seq<char>, other: Seq<char>)
    requires
        other != id,
    ensures
        ({
            let left = without_profile(profiles, id);
            &&& place_of(left, other) is Some <==> place_of(profiles, other) is Some
            &&& place_of(profiles, other) is Some ==> left[place_of(left, other)->0]
                == profiles[place_of(profiles, other)->0]
        }),
    decreases profiles.len(),
{
    let left = without_profile(profiles, id);
    lemma_first_place(profiles, other);
    lemma_first_place(left, other);
    if profiles.len() > 0 {
        let rest = profiles.drop_last();
        let last = profiles.len() - 1;
        lemma_left(rest, id, other);
        lemma_first_place(rest, other);
        let before = without_profile(rest, id);
        lemma_first_place(before, other);
        match place_of(rest, other) {
            Some(i) => {
                assert(rest[i] == profiles[i]);
                assert forall|k: int| 0 <= k < i implies (#[trigger] profiles[k]).id != other by {
                    assert(rest[k] == profiles[k]);
                }
                lemma_place(profiles, other, i);
                let j = place_of(before, other)->0;
                assert(left[j] == before[j]);
                assert forall|k: int| 0 <= k < j implies (#[trigger] left[k]).id != other by {
                    assert(left[k] == before[k]);
                }
                lemma_place(left, other, j);
            },
            None => {
                assert forall|k: int| 0 <= k < last implies (#[trigger] profiles[k]).id != other by {
                    assert(rest[k] == profiles[k]);
                }
                assert forall|k: int| 0 <= k < before.len() implies (#[trigger] left[k]).id
                    != other by {
                    assert(left[k] == before[k]);
                }
                if profiles[last].id == other {
                    lemma_place(profiles, other, last);
                    lemma_place(left, other, before.len() as int);
                } else {
                    lemma_place(profiles, other, profiles.len() as int);
                    assert forall|k: int| 0 <= k < left.len() implies (#[trigger] left[k]).id
                        != other by {
                        if k < before.len() {
                            assert(left[k] == before[k]);
                        }
                    }
                    lemma_place(left, other, left.len() as int);
                }
            },
        }
    }
}

/// The tabs that are on a connection are listed by their places, each once, in their order.
pub proof fn law_tabs_on_a_connection<P>(tabs: Seq<TabState<P>>, id: Seq<char>, i: int)
    requires
        0 <= i < tabs.len(),
    ensures
        tabs_on(tabs, id).contains(i) <==> tabs[i].profile == Some(id),
        forall|k: int|
            0 <= k < tabs_on(tabs, id).len() ==> 0 <= #[trigger] tabs_on(tabs, id)[k] < tabs.len(),
        forall|k: int, l: int|
            0 <= k < l < tabs_on(tabs, id).len() ==> #[trigger] tabs_on(tabs, id)[k]
                < #[trigger] tabs_on(tabs, id)[l],
{
    lemma_tabs_on(tabs, id);
}

proof fn lemma_tabs_on<P>(tabs: Seq<TabState<P>>, id: Seq<char>)
    ensures
        forall|i: int|
            #![trigger tabs_on(tabs, id).contains(i)]
            0 <= i < tabs.len() ==> (tabs_on(tabs, id).contains(i) <==> tabs[i].profile == Some(
                id,
            )),
        forall|k: int|
            0 <= k < tabs_on(tabs, id).len() ==> 0 <= #[trigger] tabs_on(tabs, id)[k] < tabs.len(),
        forall|k: int, l: int|
            0 <= k < l < tabs_on(tabs, id).len() ==> #[trigger] tabs_on(tabs, id)[k]
                < #[trigger] tabs_on(tabs, id)[l],
    decreases tabs.len(),
{
    if tabs.len() > 0 {
        let rest = tabs.drop_last();
        let last = tabs.len() - 1;
        lemma_tabs_on(rest, id);
        let before = tabs_on(rest, id);
        let all = tabs_on(tabs, id);
        assert forall|k: int| 0 <= k < all.len() implies 0 <= #[trigger] all[k] < tabs.len() by {
            if k < before.len() {
                assert(all[k] == before[k]);
            }
        }
        assert forall|k: int, l: int| 0 <= k < l < all.len() implies #[trigger] all[k]
            < #[trigger] all[l] by {
            assert(all[k] == before[k]);
            if l < before.len() {
                assert(all[l] == before[l]);
            }
        }
        assert forall|i: int| #![trigger all.contains(i)] 0 <= i < tabs.len() implies (
        all.contains(i) <==> tabs[i].profile == Some(id)) by {
            if i < last {
                assert(rest[i] == tabs[i]);
                assert(before.contains(i) <==> rest[i].profile == Some(id));
                if before.contains(i) {
                    let k = choose|k: int| 0 <= k < before.len() && before[k] == i;
                    assert(all[k] == i);
                }
                if all.contains(i) {
                    let k = choose|k: int| 0 <= k < all.len() && all[k] == i;
                    assert(before[k] == i);
                }
            } else {
                if tabs[last].profile == Some(id) {
                    assert(all[all.len() - 1] == last);
                } else if all.contains(i) {
                    let k = choose|k: int| 0 <= k < before.len() && before[k] == i;
                    assert(before[k] < rest.len());
                }
            }
        }
    }
}

/// A connection is refused for what its session says, one of the removed service in any case,
/// and it can be edited where there is a schema for it and it is none of those.
pub proof fn law_refusals(p: ProfileState, reason: String)
    ensures
        refusal(p, Err(reason)) == Some(reason@),
        p.scheme == "sftp"@ ==> refusal(p, Ok(())) == Some("SFTP 已移除，无法连接"@),
        p.scheme != "sftp"@ ==> refusal(p, Ok(())) is None,
        editable(p) <==> p.known && p.scheme != "sftp"@,
{
}

/// The banner names each connection whose credentials are kept elsewhere, with those
/// credentials, and no other one; it is there where there is such a connection, or where the
/// file could not be read, and says why.
pub proof fn law_first_banner(
    loaded: Vec<LoadedProfile>,
    list: Seq<LoadedProfile>,
    p: LoadedProfile,
    reason: String,
)
    ensures
        first_banner(Err(reason)) == Some(BannerState::Failure(reason@)),
        orphan_texts(loaded@).len() == 0 ==> first_banner(Ok(loaded)) is None,
        orphan_texts(loaded@).len() > 0 ==> first_banner(Ok(loaded)) == Some(
            BannerState::Config(
                "以下连接的凭据原先存放在系统钥匙串中，本版本不再读取，请重新填写："@ + joined(
                    orphan_texts(loaded@),
                    "；"@,
                ),
            ),
        ),
        orphan_texts(Seq::empty()).len() == 0,
        p.orphaned@.len() == 0 ==> orphan_texts(list.push(p)) == orphan_texts(list),
        p.orphaned@.len() > 0 ==> orphan_texts(list.push(p)) == orphan_texts(list).push(
            p.profile.name@ + "（"@ + joined(texts(p.orphaned@), "、"@) + "）"@,
        ),
{
    assert(list.push(p).drop_last() =~= list);
}

/// A window opens with the connections that were read, in their order, and one tab on the local
/// session.
pub proof fn law_a_new_window<P>(loaded: Vec<LoadedProfile>, reason: String, pane: P, i: int)
    ensures
        ({
            let d = first_desk(Ok(loaded), pane);
            &&& d.valid()
            &&& d.tabs.len() == 1 && d.tabs[0].pane == pane && d.tabs[0].profile is None
                && d.tabs[0].id == 1 && d.active == 0 && d.next_tab_id == 2
            &&& d.profiles.len() == loaded@.len()
            &&& 0 <= i < loaded@.len() ==> d.profiles[i] == loaded@[i].profile@
            &&& !d.shortcuts_open
            &&& d.banner == first_banner(Ok(loaded))
        }),
        first_desk(Err(reason), pane).profiles.len() == 0,
        first_desk(Err(reason), pane).tabs.len() == 1,
        first_desk(Err(reason), pane).banner == Some(BannerState::Failure(reason@)),
{
}

/// A tab is found by its id, and the active tab's connection by that tab's.
pub proof fn law_tabs_are_found<P>(d: Desk<P>, i: int, id: nat)
    requires
        d.valid(),
    ensures
        0 <= i < d.tabs.len() ==> tab_place(d, d.tabs[i].id) == Some(i),
        (forall|k: int| 0 <= k < d.tabs.len() ==> (#[trigger] d.tabs[k]).id != id) ==> tab_place(
            d,
            id,
        ) is None,
        d.active_tab().profile is None ==> active_place(d) is None,
        d.active_tab().profile matches Some(p) ==> active_place(d) == place_of(d.profiles, p),
{
    if 0 <= i < d.tabs.len() {
        let id = d.tabs[i].id;
        assert(d.tabs[i].id == id);
        let k = tab_place(d, id)->0;
        assert(0 <= k < d.tabs.len() && d.tabs[k].id == id);
        law_valid_windows(d, i, k);
    }
}

/// A row of the sidebar shows its own connection, with a folder for local files and a globe for
/// anything else, and has the buttons for what can be done with it.
pub proof fn law_sidebar_rows(
    row: SidebarRow,
    id: Seq<char>,
    name: Seq<char>,
    scheme: Seq<char>,
    active: bool,
    editable: bool,
    removable: bool,
)
    requires
        row_shows(row, id, name, scheme, active, editable, removable),
    ensures
        row.id@ == id && row.name@ == name && row.scheme@ == scheme,
        row.row_id@ == "conn-"@ + id,
        scheme == "fs"@ ==> row.icon is FolderClosed,
        scheme != "fs"@ ==> row.icon is Globe,
        row.active <==> active,
        row.editable <==> editable,
        row.removable <==> removable,
        row.edit_id is Some <==> editable,
        row.edit_id matches Some(edit) ==> edit@ == "edit-"@ + id,
        row.remove_id is Some <==> removable,
        row.remove_id matches Some(remove) ==> remove@ == "remove-"@ + id,
{
}

/// A tab is labelled by its session and the last part of its directory, or a slash at the root.
pub proof fn law_tab_words(session: Seq<char>, basename: Seq<char>)
    ensures
        basename.len() > 0 ==> label_of(session, basename) == session + " · "@ + basename,
        basename.len() == 0 ==> label_of(session, basename) == session + " · "@ + "/"@,
{
}

/// Each flag says whether the backend can do what it names.
pub proof fn law_flags(c: Capability)
    ensures
        flags_of(c).len() == 5,
        flags_of(c)[0].label@ == "重命名"@ && flags_of(c)[0].supported == c.rename,
        flags_of(c)[1].label@ == "服务端复制"@ && flags_of(c)[1].supported == c.copy,
        flags_of(c)[2].label@ == "分享链接"@ && flags_of(c)[2].supported == c.presign,
        flags_of(c)[3].label@ == "递归删除"@ && flags_of(c)[3].supported
            == c.delete_with_recursive,
        flags_of(c)[4].label@ == "版本"@ && flags_of(c)[4].supported == c.list_with_versions,
{
}

/// The hints name every shortcut with the keys it is bound to.
pub proof fn law_hints(
    hints: Seq<(&'static str, String)>,
    bindings: Map<Seq<char>, Seq<char>>,
    i: int,
)
    requires
        hints_show(hints, bindings),
        0 <= i < definitions().len(),
    ensures
        hints.len() == definitions().len(),
        hints[i].0 == definitions()[i].label,
        hints[i].1@ == binding_in(bindings, definitions()[i].id@),
{
}

/// Connections, tabs and the banner are taken by what they hold.
pub proof fn law_window_views<P>(
    profiles: Seq<Profile>,
    tabs: Seq<BrowserTab<P>>,
    text: String,
    i: int,
)
    ensures
        profiles_of(profiles).len() == profiles.len(),
        0 <= i < profiles.len() ==> profiles_of(profiles)[i].id == profiles[i].id@
            && profiles_of(profiles)[i].name == profiles[i].name@ && profiles_of(profiles)[i].scheme
            == profiles[i].scheme@ && profiles_of(profiles)[i].uri == profiles[i].uri@
            && profiles_of(profiles)[i].known == profiles[i].known,
        tabs_of(tabs).len() == tabs.len(),
        0 <= i < tabs.len() ==> tabs_of(tabs)[i].id == tabs[i].id && tabs_of(tabs)[i].pane
            == tabs[i].pane && (tabs_of(tabs)[i].profile is Some <==> tabs[i].profile is Some),
        0 <= i < tabs.len() && tabs[i].profile is Some ==> tabs_of(tabs)[i].profile == Some(
            tabs[i].profile->0@,
        ),
        banner_of(None) is None,
        banner_of(Some(Banner::Config(text))) == Some(BannerState::Config(text@)),
        banner_of(Some(Banner::Failure(text))) == Some(BannerState::Failure(text@)),
        LOCAL_SESSION@ == ""@,
{
}

/// The tree takes the active tab's setting with its rows, and none from another tab.
pub proof fn law_following<P>(
    d: Desk<P>,
    tree: Tree,
    tab_id: nat,
    show: bool,
    rows: Seq<TreeRow>,
)
    ensures
        d.active_tab().id != tab_id ==> followed(d, tree, tab_id, show, rows) == tree,
        d.active_tab().id == tab_id ==> followed(d, tree, tab_id, show, rows).show_hidden == show,
        d.active_tab().id == tab_id && tree.show_hidden != show ==> followed(
            d,
            tree,
            tab_id,
            show,
            rows,
        ).rows == rows,
        followed(d, tree, tab_id, show, rows).current == tree.current,
{
}

/// Connecting to what is not there changes nothing. A connection that cannot be opened is
/// refused with the reason, which the banner then says, and every tab stays where it was. One
/// that can is what the active tab is on afterwards.
pub proof fn law_what_connecting_does<P>(
    r: Connect,
    before: Desk<P>,
    after: Desk<P>,
    id: Seq<char>,
    reason: String,
    i: int,
)
    requires
        before.valid(),
        0 <= i < before.profiles.len(),
    ensures
        (forall|k: int| 0 <= k < before.profiles.len() ==> (#[trigger] before.profiles[k]).id != id)
            && connects(r, before, after, id, Ok(())) ==> r is Unknown && after == before,
        connects(r, before, after, before.profiles[i].id, Err(reason)) ==> (r matches Connect::Refused(
            message,
        ) && message@ == reason@),
        connects(r, before, after, before.profiles[i].id, Err(reason)) ==> after.banner == Some(
            BannerState::Failure(reason@),
        ) && after.tabs == before.tabs && after.active == before.active && after.profiles
            == before.profiles,
        connects(r, before, after, id, Ok(())) && r is Switched ==> after.active_tab().profile
            == Some(id) && after.profiles == before.profiles && after.active == before.active,
        connects(r, before, after, id, Ok(())) && !(r is Switched) ==> after.tabs == before.tabs,
{
    law_connections_are_found(before.profiles, id);
    law_connections_are_found(before.profiles, before.profiles[i].id);
    law_connecting_changes_only_the_active_tab(before, Some(id));
}

/// Saving succeeds exactly where the form made a connection and it was written; that connection
/// is then to be found among the others and is the one to connect to. Otherwise nothing
/// changes, and the first reason is given.
pub proof fn law_what_saving_does<P>(
    r: Save,
    before: Desk<P>,
    after: Desk<P>,
    profile: Profile,
    reason: String,
    saved: Result<(), String>,
)
    ensures
        saves(r, before, after, Ok(profile), Ok(())) ==> (r matches Save::Done { notice, connect }
            && connect@ == profile@.id && notice@ == "连接已保存"@),
        saves(r, before, after, Ok(profile), Ok(())) ==> after.profiles == with_profile(
            before.profiles,
            profile@,
        ) && after.tabs == before.tabs && after.active == before.active && after.banner
            == before.banner,
        saves(r, before, after, Ok(profile), Ok(())) ==> after.profiles.contains(profile@),
        saves(r, before, after, Ok(profile), Err(reason)) ==> (r matches Save::KeepOpen { reason: m }
            && m@ == reason@) && after == before,
        saves(r, before, after, Err(reason), saved) ==> (r matches Save::KeepOpen { reason: m }
            && m@ == reason@) && after == before,
{
    law_connections_are_found(before.profiles, profile@.id);
    let place = place_of(before.profiles, profile@.id);
    let all = with_profile(before.profiles, profile@);
    match place {
        Some(i) => {
            assert(all[i] == profile@);
        },
        None => {
            assert(all.last() == profile@);
        },
    }
}

/// Removing what is not there changes nothing, and neither does a removal that could not be
/// written. Otherwise the connection is gone, and the tabs named are those that were on it.
pub proof fn law_what_removing_does<P>(
    r: Removal,
    before: Desk<P>,
    after: Desk<P>,
    id: Seq<char>,
    reason: String,
    i: int,
)
    requires
        0 <= i < before.profiles.len(),
    ensures
        (forall|k: int| 0 <= k < before.profiles.len() ==> (#[trigger] before.profiles[k]).id != id)
            && removes(r, before, after, id, Ok(())) ==> r is Unknown && after == before,
        before.profiles[i].id == id && removes(r, before, after, id, Err(reason)) ==> (r matches
            Removal::Failed(message) && message@ == reason@) && after == before,
        before.profiles[i].id == id && removes(r, before, after, id, Ok(())) ==> (r matches
            Removal::Removed { tabs, notice } && notice@ == "连接已删除"@ && tabs@.map_values(
            |ix: usize| ix as int,
        ) == tabs_on(before.tabs, id)),
        before.profiles[i].id == id && removes(r, before, after, id, Ok(())) ==> after.profiles
            == before.profiles.filter(|p: ProfileState| p.id != id),
{
    law_connections_are_found(before.profiles, id);
    law_removing_keeps_the_others(before.profiles, Seq::empty(), before.profiles[i], id);
}

/// The title names the connection that the active tab is on and where that is, and the local
/// session otherwise.
pub proof fn law_titles<P>(d: Desk<P>, label: Seq<char>, i: int)
    ensures
        d.active_tab().profile is None ==> title_of(d, label) == "本机 · "@ + label,
        active_place(d) == Some(i) ==> d.active_tab().profile == Some(d.profiles[i].id)
            && title_of(d, label) == d.profiles[i].name + " · "@ + d.profiles[i].uri,
{
    match d.active_tab().profile {
        Some(id) => {
            law_connections_are_found(d.profiles, id);
        },
        None => {},
    }
}

} // verus!

use vstd::prelude::*;
use vstd::string::StringExecFns;
use crate::layout::{sat_sub, Area, PanelAreas};
use crate::model::{copy_repos, Repo};
use crate::order::{sort_by_key, sort_by_keys};
use crate::prompt::PromptState;
use crate::text::{chars_of, lowercase, to_lowercase, wrap_lines, wrap_text};

verus! {

broadcast use vstd::string::group_string_axioms;

/// How the repository list is ordered.
#[derive(Debug, Clone, Copy, PartialEq, Eq, Structural)]
pub enum SortOrder {
    /// As the API lists them (most recently updated first).
    Recent,
    /// By name, ignoring case.
    Alphabetical,
}

/// The other order.
pub open spec fn other_order(o: SortOrder) -> SortOrder {
    match o {
        SortOrder::Recent => SortOrder::Alphabetical,
        SortOrder::Alphabetical => SortOrder::Recent,
    }
}

impl SortOrder {
    /// The other order.
    pub fn toggle(self) -> (r: Self)
        ensures
            r == other_order(self),
    {
        match self {
            SortOrder::Recent => SortOrder::Alphabetical,
            SortOrder::Alphabetical => SortOrder::Recent,
        }
    }

    /// The label shown in the list's title.
    pub fn label(self) -> (r: &'static str)
        ensures
            r@ == (match self {
                SortOrder::Recent => "recent"@,
                SortOrder::Alphabetical => "a-z"@,
            }),
    {
        match self {
            SortOrder::Recent => "recent",
            SortOrder::Alphabetical => "a-z",
        }
    }
}

/// Which repositories the list shows.
#[derive(Debug, Clone, Copy, PartialEq, Eq, Structural)]
pub enum RepoSource {
    /// The user's own repositories.
    Mine,
    /// The repositories the user starred.
    Starred,
}

/// The other list.
pub open spec fn other_source(s: RepoSource) -> RepoSource {
    match s {
        RepoSource::Mine => RepoSource::Starred,
        RepoSource::Starred => RepoSource::Mine,
    }
}

impl RepoSource {
    /// The other list.
    pub fn toggle(self) -> (r: Self)
        ensures
            r == other_source(self),
    {
        match self {
            RepoSource::Mine => RepoSource::Starred,
            RepoSource::Starred => RepoSource::Mine,
        }
    }

    /// The list's title.
    pub fn title(self) -> (r: &'static str)
        ensures
            r@ == (match self {
                RepoSource::Mine => "Repositories"@,
                RepoSource::Starred => "Starred \u{2605}"@,
            }),
    {
        match self {
            RepoSource::Mine => "Repositories",
            RepoSource::Starred => "Starred \u{2605}",
        }
    }
}

/// The three panels of the screen.
#[derive(Debug, Clone, Copy, PartialEq, Eq, Structural)]
pub enum Panel {
    Repos,
    Info,
    Readme,
}

/// The panel after `p` in the cycle Repos, Info, README.
pub open spec fn panel_after(p: Panel) -> Panel {
    match p {
        Panel::Repos => Panel::Info,
        Panel::Info => Panel::Readme,
        Panel::Readme => Panel::Repos,
    }
}

/// The panel before `p` in the cycle Repos, Info, README.
pub open spec fn panel_before(p: Panel) -> Panel {
    match p {
        Panel::Repos => Panel::Readme,
        Panel::Info => Panel::Repos,
        Panel::Readme => Panel::Info,
    }
}

impl Panel {
    /// The panel that Tab moves to.
    pub fn next(self) -> (r: Self)
        ensures
            r == panel_after(self),
    {
        match self {
            Panel::Repos => Panel::Info,
            Panel::Info => Panel::Readme,
            Panel::Readme => Panel::Repos,
        }
    }

    /// The panel that Shift-Tab moves to.
    pub fn prev(self) -> (r: Self)
        ensures
            r == panel_before(self),
    {
        match self {
            Panel::Repos => Panel::Readme,
            Panel::Info => Panel::Repos,
            Panel::Readme => Panel::Info,
        }
    }
}

/// Tab and Shift-Tab undo each other, and three Tabs come back to the same panel.
pub proof fn lemma_panel_cycle(p: Panel)
    ensures
        panel_before(panel_after(p)) == p,
        panel_after(panel_before(p)) == p,
        panel_after(panel_after(panel_after(p))) == p,
{
}

/// Toggling the order or the list twice gives back what there was.
pub proof fn lemma_toggles_undo(o: SortOrder, s: RepoSource)
    ensures
        other_order(other_order(o)) == o,
        other_order(o) != o,
        other_source(other_source(s)) == s,
        other_source(s) != s,
{
}

/// What the screen shows over the panels.
#[derive(Debug)]
pub enum Mode {
    Normal,
    Prompt(PromptState),
    Message(String),
}

/// How many lines the info panel has (name, description, URL, language, license,
/// stars, visibility, last update).
pub const INFO_FIELD_COUNT: usize = 8;

/// The state of the repository browser.
#[derive(Debug)]
pub struct App {
    pub repos: Vec<Repo>,
    pub selected: usize,
    pub repo_offset: usize,
    pub readme_content: Option<String>,
    pub readme_scroll: u16,
    pub readme_line_count: u16,
    pub readme_rendered_width: u16,
    pub readme_loading: bool,
    pub info_field: usize,
    pub mode: Mode,
    pub status_msg: Option<String>,
    pub username: String,
    pub focused_panel: Panel,
    pub sort_order: SortOrder,
    pub source: RepoSource,
    pub mine: Vec<Repo>,
    pub starred: Option<Vec<Repo>>,
    pub areas: PanelAreas,
    /// For each row of the info panel, the line it belongs to.
    pub info_rows: Vec<usize>,
}

/// An area of no size at the origin.
pub open spec fn no_area() -> Area {
    Area { x: 0, y: 0, width: 0, height: 0 }
}

/// The key by which the alphabetical order sorts: the name in lower case.
pub open spec fn repo_key() -> spec_fn(Repo) -> Seq<char> {
    |r: Repo| lowercase(r.name@)
}

/// The list shown for a base list in an order.
pub open spec fn ordered(base: Seq<Repo>, order: SortOrder) -> Seq<Repo> {
    if order == SortOrder::Alphabetical {
        sort_by_key(base, repo_key())
    } else {
        base
    }
}

impl App {
    /// The selected info line is one of the eight, every row of the info panel
    /// belongs to one of them, and an open prompt is well formed.
    pub open spec fn wf(&self) -> bool {
        &&& self.info_field < INFO_FIELD_COUNT
        &&& forall|i: int| 0 <= i < self.info_rows@.len() ==> #[trigger] self.info_rows@[i] < INFO_FIELD_COUNT
        &&& self.mode matches Mode::Prompt(p) ==> p.wf()
    }

    /// A browser over the user's repositories, in the order given: the first one
    /// selected, the list panel focused, nothing loaded or laid out yet.
    pub fn new(repos: Vec<Repo>) -> (app: Self)
        ensures
            app.wf(),
            app.repos@ == repos@,
            app.mine@ == repos@,
            app.starred is None,
            app.source == RepoSource::Mine,
            app.selected == 0,
            app.repo_offset == 0,
            app.readme_content is None,
            app.readme_scroll == 0,
            app.readme_line_count == 0,
            app.readme_rendered_width == 0,
            !app.readme_loading,
            app.info_field == 0,
            app.mode is Normal,
            app.status_msg is None,
            app.username@ == Seq::<char>::empty(),
            app.focused_panel == Panel::Repos,
            app.sort_order == SortOrder::Recent,
            app.areas == (PanelAreas { repos: no_area(), info: no_area(), readme: no_area() }),
            app.info_rows@.len() == 0,
    {
        let zero = Area { x: 0, y: 0, width: 0, height: 0 };
        App {
            mine: copy_repos(&repos),
            starred: None,
            source: RepoSource::Mine,
            repos,
            selected: 0,
            repo_offset: 0,
            readme_content: None,
            readme_scroll: 0,
            readme_line_count: 0,
            readme_rendered_width: 0,
            readme_loading: false,
            info_field: 0,
            mode: Mode::Normal,
            status_msg: None,
            username: String::new(),
            focused_panel: Panel::Repos,
            sort_order: SortOrder::Recent,
            areas: PanelAreas { repos: zero, info: zero, readme: zero },
            info_rows: Vec::new(),
        }
    }

    /// The selected repository, if the selection is in the list.
    pub fn selected_repo(&self) -> (r: Option<&Repo>)
        ensures
            self.selected < self.repos@.len() ==> r == Some(&self.repos@[self.selected as int]),
            self.selected >= self.repos@.len() ==> r is None,
    {
        if self.selected < self.repos.len() {
            Some(&self.repos[self.selected])
        } else {
            None
        }
    }

    /// Sets the user's name shown in the status bar.
    pub fn set_username(&mut self, name: String)
        ensures
            *final(self) == (App { username: name, ..*old(self) }),
    {
        self.username = name;
    }

    /// The list that the current source stands for (no starred list yet: empty).
    pub open spec fn base_list(&self) -> Seq<Repo> {
        match self.source {
            RepoSource::Mine => self.mine@,
            RepoSource::Starred => match self.starred {
                Some(v) => v@,
                None => Seq::<Repo>::empty(),
            },
        }
    }

    /// Shows the current source's list in the current order: as it is for the
    /// recent order, stably sorted by lower-cased name for the alphabetical one.
    pub fn apply_sort(&mut self)
        ensures
            final(self).repos@ == ordered(old(self).base_list(), old(self).sort_order),
            *final(self) == (App { repos: final(self).repos, ..*old(self) }),
    {
        let base = match self.source {
            RepoSource::Mine => copy_repos(&self.mine),
            RepoSource::Starred => match &self.starred {
                Some(v) => copy_repos(v),
                None => Vec::new(),
            },
        };
        if self.sort_order == SortOrder::Alphabetical {
            let mut keys: Vec<Vec<char>> = Vec::new();
            let mut i: usize = 0;
            while i < base.len()
                invariant
                    i <= base.len(),
                    keys.len() == i,
                    forall|k: int| 0 <= k < i ==> (#[trigger] keys[k])@ == repo_key()(base[k]),
                decreases base.len() - i,
            {
                keys.push(chars_of(to_lowercase(base[i].name.as_str()).as_str()));
                i = i + 1;
            }
            self.repos = sort_by_keys(base, keys, Ghost(repo_key()));
        } else {
            self.repos = base;
        }
    }

    /// Replaces the user's own list and shows the current list again.
    pub fn set_mine(&mut self, repos: Vec<Repo>)
        ensures
            final(self).mine@ == repos@,
            final(self).repos@ == ordered(
                (App { mine: final(self).mine, ..*old(self) }).base_list(),
                old(self).sort_order,
            ),
            *final(self) == (App { repos: final(self).repos, mine: final(self).mine, ..*old(self) }),
    {
        self.mine = repos;
        self.apply_sort();
    }

    /// Replaces the starred list and shows the current list again.
    pub fn set_starred(&mut self, repos: Vec<Repo>)
        ensures
            final(self).starred matches Some(v) && v@ == repos@,
            final(self).repos@ == ordered(
                (App { starred: final(self).starred, ..*old(self) }).base_list(),
                old(self).sort_order,
            ),
            *final(self) == (App {
                repos: final(self).repos,
                starred: final(self).starred,
                ..*old(self)
            }),
    {
        self.starred = Some(repos);
        self.apply_sort();
    }
}

/// The smaller of two numbers.
pub open spec fn min_int(a: int, b: int) -> int {
    if a < b {
        a
    } else {
        b
    }
}

/// `v` kept between `lo` and `hi`.
pub open spec fn clamp_int(v: int, lo: int, hi: int) -> int {
    if v < lo {
        lo
    } else if v > hi {
        hi
    } else {
        v
    }
}

/// What the README panel shows while it is laid out again: the README as
/// Markdown, or plain text (a placeholder, or the README while it loads).
#[derive(Debug, Clone, PartialEq, Eq)]
pub enum ReadmeText {
    Markdown(String),
    Plain(String),
}

impl App {
    /// Rows of the repository list inside its border.
    pub open spec fn repos_view(&self) -> int {
        sat_sub(self.areas.repos.height as int, 2)
    }

    /// How many rows of the repository list are visible.
    pub fn repos_viewport(&self) -> (r: u16)
        ensures
            r == self.repos_view(),
    {
        if self.areas.repos.height > 2 {
            self.areas.repos.height - 2
        } else {
            0
        }
    }

    /// The largest offset that still fills the list's rows (at least one row).
    pub open spec fn max_repo_offset(&self) -> int {
        sat_sub(self.repos@.len() as int, if self.repos_view() > 1 { self.repos_view() } else { 1 })
    }

    /// Keeps the list's offset within the list.
    pub fn clamp_repo_offset(&mut self)
        ensures
            final(self).repo_offset == min_int(old(self).repo_offset as int, old(self).max_repo_offset()),
            *final(self) == (App { repo_offset: final(self).repo_offset, ..*old(self) }),
    {
        let vh0 = self.repos_viewport();
        let vh: usize = if vh0 > 1 { vh0 as usize } else { 1 };
        let max = if self.repos.len() > vh {
            self.repos.len() - vh
        } else {
            0
        };
        if self.repo_offset > max {
            self.repo_offset = max;
        }
    }

    /// The offset that brings the selection into view (with the fewest rows moved).
    pub open spec fn offset_showing_selection(&self) -> int {
        let vh = self.repos_view();
        if vh == 0 {
            self.repo_offset as int
        } else if self.selected < self.repo_offset {
            self.selected as int
        } else if self.selected >= self.repo_offset + vh {
            self.selected + 1 - vh
        } else {
            self.repo_offset as int
        }
    }

    /// Scrolls the list just enough for the selected row to show.
    pub fn ensure_selected_visible(&mut self)
        ensures
            final(self).repo_offset == old(self).offset_showing_selection(),
            *final(self) == (App { repo_offset: final(self).repo_offset, ..*old(self) }),
    {
        let vh = self.repos_viewport() as usize;
        if vh == 0 {
            return ;
        }
        if self.selected < self.repo_offset {
            self.repo_offset = self.selected;
        } else if self.selected - self.repo_offset >= vh {
            self.repo_offset = self.selected - (vh - 1);
        }
    }

    /// Scrolls the list by `delta` rows without moving the selection, within the list.
    pub fn scroll_repo_list(&mut self, delta: i32)
        ensures
            final(self).repo_offset == clamp_int(
                old(self).repo_offset as int + delta,
                0,
                old(self).max_repo_offset(),
            ),
            *final(self) == (App { repo_offset: final(self).repo_offset, ..*old(self) }),
    {
        let vh0 = self.repos_viewport();
        let vh: usize = if vh0 > 1 { vh0 as usize } else { 1 };
        let max = if self.repos.len() > vh {
            self.repos.len() - vh
        } else {
            0
        };
        if delta < 0 {
            let back = (0 - (delta as i64)) as usize;
            if self.repo_offset <= back {
                self.repo_offset = 0;
            } else if self.repo_offset - back > max {
                self.repo_offset = max;
            } else {
                self.repo_offset = self.repo_offset - back;
            }
        } else {
            let fwd = delta as usize;
            if self.repo_offset >= max || max - self.repo_offset <= fwd {
                self.repo_offset = max;
            } else {
                self.repo_offset = self.repo_offset + fwd;
            }
        }
    }

    /// Rows of the README panel inside its border.
    pub open spec fn readme_view(&self) -> int {
        sat_sub(self.areas.readme.height as int, 2)
    }

    /// How many rows of the README are visible.
    pub fn readme_viewport(&self) -> (r: u16)
        ensures
            r == self.readme_view(),
    {
        if self.areas.readme.height > 2 {
            self.areas.readme.height - 2
        } else {
            0
        }
    }

    /// The last scroll position of the README: the last line may go up to the
    /// top of the panel but one row, which stays blank to mark the end.
    pub open spec fn max_readme_scroll_of(&self) -> int {
        sat_sub(
            self.readme_line_count as int,
            sat_sub(if self.readme_view() > 1 { self.readme_view() } else { 1 }, 1),
        )
    }

    /// The last scroll position of the README.
    pub fn max_readme_scroll(&self) -> (r: u16)
        ensures
            r == self.max_readme_scroll_of(),
    {
        let v = self.readme_viewport();
        let page: u16 = if v > 1 { v - 1 } else { 0 };
        if self.readme_line_count > page {
            self.readme_line_count - page
        } else {
            0
        }
    }

    /// Scrolls the README by `delta` lines, within its lines.
    pub fn readme_scroll_by(&mut self, delta: i32)
        requires
            i32::MIN <= old(self).readme_scroll + delta <= i32::MAX,
        ensures
            final(self).readme_scroll == clamp_int(
                old(self).readme_scroll + delta,
                0,
                old(self).max_readme_scroll_of(),
            ),
            *final(self) == (App { readme_scroll: final(self).readme_scroll, ..*old(self) }),
    {
        let max = self.max_readme_scroll() as i32;
        let next = self.readme_scroll as i32 + delta;
        let clamped = if next < 0 {
            0
        } else if next > max {
            max
        } else {
            next
        };
        self.readme_scroll = clamped as u16;
    }

    /// Forgets how the README was laid out, so that it is laid out again.
    pub fn invalidate_readme_layout(&mut self)
        ensures
            *final(self) == (App { readme_rendered_width: 0, ..*old(self) }),
    {
        self.readme_rendered_width = 0;
    }

    /// The panel under the cell (`x`, `y`), if any.
    pub open spec fn panel_under(&self, x: u16, y: u16) -> Option<Panel> {
        if self.areas.repos.holds(x, y) {
            Some(Panel::Repos)
        } else if self.areas.info.holds(x, y) {
            Some(Panel::Info)
        } else if self.areas.readme.holds(x, y) {
            Some(Panel::Readme)
        } else {
            None
        }
    }

    /// The panel under a cell.
    pub fn panel_at(&self, x: u16, y: u16) -> (r: Option<Panel>)
        ensures
            r == self.panel_under(x, y),
    {
        if self.areas.repos.contains(x, y) {
            Some(Panel::Repos)
        } else if self.areas.info.contains(x, y) {
            Some(Panel::Info)
        } else if self.areas.readme.contains(x, y) {
            Some(Panel::Readme)
        } else {
            None
        }
    }

    /// The repository on the list row under a cell.
    pub open spec fn repo_row_under(&self, x: u16, y: u16) -> Option<usize> {
        let inner = self.areas.repos.inside_border();
        if !inner.holds(x, y) {
            None
        } else if self.repo_offset + (y - inner.y) < self.repos@.len() {
            Some((self.repo_offset + (y - inner.y)) as usize)
        } else {
            None
        }
    }

    /// The index of the repository on the list row under a cell, if any.
    pub fn repo_row_at(&self, x: u16, y: u16) -> (r: Option<usize>)
        ensures
            r == self.repo_row_under(x, y),
    {
        let inner = self.areas.repos.inner();
        if !inner.contains(x, y) {
            return None;
        }
        let row = (y - inner.y) as usize;
        if self.repo_offset < self.repos.len() && row < self.repos.len() - self.repo_offset {
            Some(self.repo_offset + row)
        } else {
            None
        }
    }

    /// The info line on the row under a cell.
    pub open spec fn info_row_under(&self, x: u16, y: u16) -> Option<usize> {
        let inner = self.areas.info.inside_border();
        if !inner.holds(x, y) {
            None
        } else if y - inner.y < self.info_rows@.len() {
            Some(self.info_rows@[y - inner.y])
        } else {
            None
        }
    }

    /// The info line on the row under a cell, if any.
    pub fn info_row_at(&self, x: u16, y: u16) -> (r: Option<usize>)
        ensures
            r == self.info_row_under(x, y),
    {
        let inner = self.areas.info.inner();
        if !inner.contains(x, y) {
            return None;
        }
        let row = (y - inner.y) as usize;
        if row < self.info_rows.len() {
            Some(self.info_rows[row])
        } else {
            None
        }
    }

    /// Places the panels and keeps the list's offset within the list.
    pub fn set_areas(&mut self, areas: PanelAreas)
        ensures
            final(self).areas == areas,
            final(self).repo_offset == min_int(
                old(self).repo_offset as int,
                (App { areas: areas, ..*old(self) }).max_repo_offset(),
            ),
            *final(self) == (App {
                areas: areas,
                repo_offset: final(self).repo_offset,
                ..*old(self)
            }),
    {
        self.areas = areas;
        self.clamp_repo_offset();
    }

    /// What to lay out again in a README panel `inner_width` columns wide: nothing
    /// when the width is zero or the layout is for this width already; else the
    /// README as Markdown once loaded, or as plain text the placeholder (or the
    /// loading notice).
    pub open spec fn readme_layout_of(&self, inner_width: u16) -> Option<(bool, Seq<char>)> {
        if inner_width == 0 || self.readme_rendered_width == inner_width {
            None
        } else {
            match self.readme_content {
                Some(c) => if !self.readme_loading {
                    Some((true, c@))
                } else {
                    Some((false, c@))
                },
                None => Some((false, "Press Enter to load README"@)),
            }
        }
    }

    /// What to lay out again in a README panel `inner_width` columns wide, if anything.
    pub fn readme_to_lay_out(&self, inner_width: u16) -> (r: Option<ReadmeText>)
        ensures
            match self.readme_layout_of(inner_width) {
                None => r is None,
                Some((md, t)) => match r {
                    Some(ReadmeText::Markdown(s)) => md && s@ == t,
                    Some(ReadmeText::Plain(s)) => !md && s@ == t,
                    None => false,
                },
            },
    {
        if inner_width == 0 || self.readme_rendered_width == inner_width {
            return None;
        }
        match &self.readme_content {
            Some(content) => {
                if !self.readme_loading {
                    Some(ReadmeText::Markdown(content.clone()))
                } else {
                    Some(ReadmeText::Plain(content.clone()))
                }
            },
            None => Some(ReadmeText::Plain("Press Enter to load README".to_string())),
        }
    }

    /// Records the README's layout: its line count at this width, and the scroll
    /// position kept within the new lines.
    pub fn readme_laid_out(&mut self, inner_width: u16, line_count: u16)
        ensures
            final(self).readme_scroll == min_int(
                old(self).readme_scroll as int,
                (App { readme_line_count: line_count, ..*old(self) }).max_readme_scroll_of(),
            ),
            *final(self) == (App {
                readme_line_count: line_count,
                readme_rendered_width: inner_width,
                readme_scroll: final(self).readme_scroll,
                ..*old(self)
            }),
    {
        self.readme_line_count = line_count;
        self.readme_rendered_width = inner_width;
        let max = self.max_readme_scroll();
        if self.readme_scroll > max {
            self.readme_scroll = max;
        }
    }

    /// Selects the repository at `index`: the README goes back to the top, the
    /// info panel to its first line, and the list scrolls to show the selection.
    /// When the index is in the list, the README shows "Loading..." until
    /// `finish_select` brings it, and the owner and name to fetch it for are returned.
    pub fn begin_select(&mut self, index: usize) -> (r: Option<(String, String)>)
        requires
            old(self).wf(),
        ensures
            final(self).wf(),
            final(self).selected == index,
            final(self).readme_scroll == 0,
            final(self).info_field == 0,
            final(self).repo_offset == (App { selected: index, ..*old(self) }).offset_showing_selection(),
            index < old(self).repos@.len() ==> {
                &&& r matches Some((o, n)) && o == old(self).repos@[index as int].owner && n
                    == old(self).repos@[index as int].name
                &&& final(self).readme_content matches Some(c) && c@ == "Loading..."@
                &&& final(self).readme_loading
                &&& final(self).readme_rendered_width == 0
                &&& *final(self) == (App {
                    selected: index,
                    readme_scroll: 0,
                    info_field: 0,
                    repo_offset: final(self).repo_offset,
                    readme_content: final(self).readme_content,
                    readme_loading: true,
                    readme_rendered_width: 0,
                    ..*old(self)
                })
            },
            index >= old(self).repos@.len() ==> {
                &&& r is None
                &&& *final(self) == (App {
                    selected: index,
                    readme_scroll: 0,
                    info_field: 0,
                    repo_offset: final(self).repo_offset,
                    ..*old(self)
                })
            },
    {
        self.selected = index;
        self.readme_scroll = 0;
        self.info_field = 0;
        self.ensure_selected_visible();
        if index < self.repos.len() {
            let owner = self.repos[index].owner.clone();
            let name = self.repos[index].name.clone();
            self.readme_content = Some("Loading...".to_string());
            self.readme_loading = true;
            self.invalidate_readme_layout();
            Some((owner, name))
        } else {
            None
        }
    }

    /// Shows the README that was fetched for the selection (`None`: it has none).
    pub fn finish_select(&mut self, content: Option<String>)
        ensures
            *final(self) == (App {
                readme_content: content,
                readme_loading: false,
                readme_rendered_width: 0,
                ..*old(self)
            }),
    {
        self.readme_content = content;
        self.readme_loading = false;
        self.invalidate_readme_layout();
    }
}

/// The rows of the info panel: the name, the description over as many rows as it
/// wraps to, then the six other lines.
pub open spec fn info_rows_for(desc_rows: nat) -> Seq<usize> {
    seq![0usize] + Seq::new(desc_rows, |i: int| 1usize) + seq![2usize, 3usize, 4usize, 5usize, 6usize, 7usize]
}

/// The width of the values in the info panel: the panel less the marker and the
/// label column, at least ten.
pub open spec fn info_value_width(inner_width: usize) -> int {
    let w = sat_sub(inner_width as int, 15);
    if w > 10 {
        w
    } else {
        10
    }
}

/// The description that the info panel shows for a repository.
pub open spec fn shown_description(r: Repo) -> Seq<char> {
    match r.description {
        Some(d) => d@,
        None => "No description"@,
    }
}

impl App {
    /// Lays out the info panel for a width of `inner_width` columns inside its
    /// border: returns the lines of the selected repository's description, wrapped
    /// to the value column, and records which line each row belongs to (no rows
    /// without a selection).
    pub fn info_layout(&mut self, inner_width: usize) -> (lines: Vec<String>)
        requires
            old(self).wf(),
        ensures
            final(self).wf(),
            old(self).selected < old(self).repos@.len() ==> {
                &&& lines.deep_view() == wrap_lines(
                    shown_description(old(self).repos@[old(self).selected as int]),
                    info_value_width(inner_width) as nat,
                )
                &&& final(self).info_rows@ == info_rows_for(lines.len() as nat)
            },
            old(self).selected >= old(self).repos@.len() ==> lines@.len() == 0
                && final(self).info_rows@.len() == 0,
            *final(self) == (App { info_rows: final(self).info_rows, ..*old(self) }),
    {
        if self.selected >= self.repos.len() {
            self.info_rows = Vec::new();
            return Vec::new();
        }
        let w0: usize = if inner_width > 15 { inner_width - 15 } else { 0 };
        let width: usize = if w0 > 10 { w0 } else { 10 };
        let lines = match &self.repos[self.selected].description {
            Some(d) => wrap_text(d.as_str(), width),
            None => wrap_text("No description", width),
        };
        let mut rows: Vec<usize> = Vec::new();
        rows.push(0);
        let mut i: usize = 0;
        while i < lines.len()
            invariant
                i <= lines.len(),
                rows@ =~= seq![0usize] + Seq::new(i as nat, |k: int| 1usize),
            decreases lines.len() - i,
        {
            rows.push(1);
            i = i + 1;
        }
        rows.push(2);
        rows.push(3);
        rows.push(4);
        rows.push(5);
        rows.push(6);
        rows.push(7);
        assert(rows@ =~= info_rows_for(lines.len() as nat));
        self.info_rows = rows;
        lines
    }

    /// The text of the status bar: the status message, or the user's name and the
    /// keys.
    pub fn status_line(&self) -> (r: String)
        ensures
            match self.status_msg {
                Some(m) => r@ == m@,
                None => r@ == " "@ + self.username@ + "  \u{2502}  q:quit  Tab:panel  j/k:nav  Enter:readme  "@
                    + (match self.source {
                    RepoSource::Mine => "v:starred"@,
                    RepoSource::Starred => "v:my repos"@,
                }) + "  s:sort  r:refresh  o:open  p:publish  c:clone  e:edit"@,
            },
    {
        match &self.status_msg {
            Some(m) => m.clone(),
            None => {
                let mut s = " ".to_string();
                s.append(self.username.as_str());
                s.append("  \u{2502}  q:quit  Tab:panel  j/k:nav  Enter:readme  ");
                match self.source {
                    RepoSource::Mine => s.append("v:starred"),
                    RepoSource::Starred => s.append("v:my repos"),
                }
                s.append("  s:sort  r:refresh  o:open  p:publish  c:clone  e:edit");
                s
            },
        }
    }
}

} // verus!

verus! {

/// The alphabetical order shows the same repositories as the base list, sorted by
/// lower-cased name, repositories of equal lower-cased names in their base order;
/// the recent order shows the base list as it is.
pub proof fn lemma_ordered(base: Seq<Repo>, order: SortOrder)
    ensures
        ordered(base, order).to_multiset() == base.to_multiset(),
        ordered(base, order).len() == base.len(),
        order == SortOrder::Alphabetical ==> crate::order::sorted_by_key(ordered(base, order), repo_key()),
        order == SortOrder::Alphabetical ==> forall|k: Seq<char>|
            #[trigger] crate::order::with_key(ordered(base, order), repo_key(), k)
                == crate::order::with_key(base, repo_key(), k),
        order == SortOrder::Recent ==> ordered(base, order) == base,
{
    crate::order::lemma_sort_by_key(base, repo_key());
}

/// After `ensure_selected_visible` the selected row lies within the visible rows
/// (when the list shows any row).
pub proof fn lemma_selection_visible(a: App)
    ensures
        a.repos_view() > 0 ==> a.offset_showing_selection() <= a.selected
            < a.offset_showing_selection() + a.repos_view(),
{
}

/// The list's offset, once clamped or scrolled, never goes past the last full page.
pub proof fn lemma_offset_within(a: App, delta: int)
    ensures
        min_int(a.repo_offset as int, a.max_repo_offset()) <= a.max_repo_offset(),
        0 <= clamp_int(a.repo_offset + delta, 0, a.max_repo_offset()) <= a.max_repo_offset(),
{
}

/// Scrolling the README keeps it between the top and the last scroll position.
pub proof fn lemma_readme_scroll_within(a: App, delta: int)
    ensures
        0 <= clamp_int(a.readme_scroll + delta, 0, a.max_readme_scroll_of()) <= a.max_readme_scroll_of(),
        a.max_readme_scroll_of() <= a.readme_line_count,
{
}

} // verus!

verus! {

/// The alphabetical order sorts by name ignoring case: no repository comes after
/// one whose lower-cased name is greater, no repository is lost or added, and
/// repositories whose names are the same in lower case keep their order.
pub proof fn lemma_alphabetical_ignores_case(base: Seq<Repo>, k: Seq<char>)
    ensures
        forall|i: int, j: int|
            0 <= i < j < ordered(base, SortOrder::Alphabetical).len() ==> !crate::order::lex_lt(
                lowercase(#[trigger] ordered(base, SortOrder::Alphabetical)[j].name@),
                lowercase(#[trigger] ordered(base, SortOrder::Alphabetical)[i].name@),
            ),
        ordered(base, SortOrder::Alphabetical).to_multiset() == base.to_multiset(),
        ordered(base, SortOrder::Alphabetical).filter(|r: Repo| lowercase(r.name@) == k)
            == base.filter(|r: Repo| lowercase(r.name@) == k),
{
    crate::order::lemma_sort_by_key(base, repo_key());
    let o = ordered(base, SortOrder::Alphabetical);
    assert forall|i: int, j: int| 0 <= i < j < o.len() implies !crate::order::lex_lt(
        lowercase(#[trigger] o[j].name@),
        lowercase(#[trigger] o[i].name@),
    ) by {
        assert(repo_key()(o[j]) == lowercase(o[j].name@));
        assert(repo_key()(o[i]) == lowercase(o[i].name@));
    }
    assert(crate::order::key_is(repo_key(), k) =~= (|r: Repo| lowercase(r.name@) == k));
    assert(crate::order::with_key(o, repo_key(), k) == crate::order::with_key(base, repo_key(), k));
}

} // verus!

verus! {

/// A click inside the list's border, `k` rows below its top, picks the repository
/// shown on that row: the one at the list's offset plus `k` when the list has it,
/// nothing otherwise; with the list scrolled one row further the same click picks
/// the next repository.
pub proof fn lemma_click_picks_shown_row(a: App, x: u16, y: u16)
    requires
        a.areas.repos.inside_border().holds(x, y),
    ensures
        ({
            let k = y - a.areas.repos.inside_border().y;
            let scrolled = App { repo_offset: (a.repo_offset + 1) as usize, ..a };
            &&& 0 <= k
            &&& a.repo_offset + k < a.repos@.len() ==> a.repo_row_under(x, y) == Some(
                (a.repo_offset + k) as usize,
            )
            &&& a.repo_offset + k >= a.repos@.len() ==> a.repo_row_under(x, y) is None
            &&& a.repo_offset + 1 + k < a.repos@.len() ==> scrolled.repo_row_under(x, y) == Some(
                (a.repo_offset + 1 + k) as usize,
            )
        }),
{
    assert(a.repos@.len() == a.repos.len());
}

} // verus!

verus! {

/// A click inside the info panel's border, `k` rows below its top, selects the
/// line that row belongs to, when the panel has such a row.
pub proof fn lemma_click_picks_info_line(a: App, x: u16, y: u16)
    requires
        a.areas.info.inside_border().holds(x, y),
    ensures
        ({
            let k = y - a.areas.info.inside_border().y;
            &&& k < a.info_rows@.len() ==> a.info_row_under(x, y) == Some(a.info_rows@[k])
            &&& k >= a.info_rows@.len() ==> a.info_row_under(x, y) is None
        }),
{
}

/// The panel under a cell is the first of list, info and README whose area holds
/// it, and none when no area does.
pub proof fn lemma_panel_hit(a: App, x: u16, y: u16)
    ensures
        a.panel_under(x, y) == Some(Panel::Repos) <==> a.areas.repos.holds(x, y),
        a.panel_under(x, y) == Some(Panel::Info) <==> !a.areas.repos.holds(x, y)
            && a.areas.info.holds(x, y),
        a.panel_under(x, y) == Some(Panel::Readme) <==> !a.areas.repos.holds(x, y)
            && !a.areas.info.holds(x, y) && a.areas.readme.holds(x, y),
        a.panel_under(x, y) is None <==> !a.areas.repos.holds(x, y) && !a.areas.info.holds(x, y)
            && !a.areas.readme.holds(x, y),
{
}

/// Bringing the selection into view moves the list as little as possible: not at
/// all when the selected row shows, to put it on the top row when it is above,
/// and on the bottom row when it is below.
pub proof fn lemma_selection_scrolls_least(a: App)
    ensures
        ({
            let rows = sat_sub(a.areas.repos.height as int, 2);
            let s = a.selected as int;
            let off = a.repo_offset as int;
            &&& rows == 0 ==> a.offset_showing_selection() == off
            &&& rows > 0 && off <= s < off + rows ==> a.offset_showing_selection() == off
            &&& rows > 0 && s < off ==> a.offset_showing_selection() == s
            &&& rows > 0 && s >= off + rows ==> a.offset_showing_selection() == s + 1 - rows
        }),
{
}

/// Scrolling the list by `delta` rows moves its offset by `delta`, but not above
/// the first repository nor past the offset that shows the last one on the last
/// row (a list of `rows` rows inside the border, at least one).
pub proof fn lemma_list_scroll_bounds(a: App, delta: int)
    ensures
        ({
            let rows0 = sat_sub(a.areas.repos.height as int, 2);
            let rows = if rows0 > 1 { rows0 } else { 1 };
            let last = sat_sub(a.repos@.len() as int, rows);
            let want = a.repo_offset + delta;
            clamp_int(want, 0, a.max_repo_offset()) == (if want < 0 {
                0
            } else if want > last {
                last
            } else {
                want
            })
        }),
{
}

/// The README scrolls at most to where its last line is one row above the panel's
/// bottom row: its line count less the rows inside the border but one, and not
/// below the top.
pub proof fn lemma_readme_scroll_bound(a: App)
    ensures
        ({
            let rows0 = sat_sub(a.areas.readme.height as int, 2);
            let rows = if rows0 > 1 { rows0 } else { 1 };
            a.max_readme_scroll_of() == sat_sub(a.readme_line_count as int, rows - 1)
        }),
{
}

} // verus!

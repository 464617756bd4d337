use vstd::prelude::*;
use vstd::string::StringExecFns;
use crate::browser::{
    clamp_int, min_int, other_order, other_source, ordered, panel_after, panel_before, App, Mode, Panel,
    RepoSource, INFO_FIELD_COUNT,
};
use crate::layout::sat_sub;
use crate::model::{PublishOptions, Repo, UpdateRepoOptions};
use crate::paths::{expand_tilde, tilde_expanded};
use crate::prompt::{
    clone_prompt, clone_prompt_view, edit_prompt, edit_prompt_view, focused_field,
    needs_completions, prompt_after_key, prompt_with_completions, publish_prompt,
    publish_prompt_view, PromptKind, PromptState, PromptView,
};
use crate::text::{chars_of, same_text};

verus! {

broadcast use vstd::string::group_string_axioms;

/// A mouse action on the screen.
#[derive(Debug, Clone, Copy, PartialEq, Eq, Structural)]
pub enum MouseKind {
    ScrollUp,
    ScrollDown,
    LeftDown,
    Other,
}

/// A key pressed on the keyboard.
#[derive(Debug, Clone, Copy, PartialEq, Eq, Structural)]
pub enum Key {
    Char(char),
    Esc,
    Tab,
    BackTab,
    Up,
    Down,
    Enter,
    Backspace,
    PageUp,
    PageDown,
    Other,
}

/// Work that only the program around the browser can do, asked for by a key.
#[derive(Debug)]
pub enum KeyOutcome {
    /// Nothing to do.
    Continue,
    /// Leave the program.
    Quit,
    /// Select the repository at this index (`begin_select`, fetch, `finish_select`).
    SelectRepo(usize),
    /// Open this address in the browser.
    OpenUrl(String),
    /// List the completions of this path and hand them to `apply_completions`.
    Complete(String),
    /// Fetch the starred repositories and hand them to `starred_loaded`.
    FetchStarred,
    /// Fetch this list again and hand it to `refreshed`.
    Refresh(RepoSource),
    /// Carry out what the prompt asked for.
    Run(SubmitPlan),
}

/// What a submitted prompt asks the program to do.
#[derive(Debug)]
pub enum SubmitPlan {
    Publish(PublishOptions),
    Clone { url: String, destination: String },
    Update { owner: String, name: String, opts: UpdateRepoOptions },
}

/// `o` holds the text `t`.
pub open spec fn shows(o: Option<String>, t: Seq<char>) -> bool {
    o matches Some(s) && s@ == t
}

/// `m` is a message saying `t`.
pub open spec fn is_message(m: Mode, t: Seq<char>) -> bool {
    m matches Mode::Message(s) && s@ == t
}

/// `m` is a prompt that holds `v`.
pub open spec fn prompt_is(m: Mode, v: PromptView) -> bool {
    m matches Mode::Prompt(p) && p.wf() && p@ == v
}

/// The README page step: one row less than the panel, at least one.
pub open spec fn page_step(a: App) -> int {
    let p = sat_sub(a.readme_view(), 1);
    if p > 1 {
        p
    } else {
        1
    }
}

/// After a switch of list (to the one `o` names): the list shown again from the
/// top; with no repository nothing is selected and the README is cleared, else
/// the first one is to be selected.
pub open spec fn switch_post(o: App, n: App, r: KeyOutcome) -> bool {
    &&& n.repos@ == ordered(o.base_list(), o.sort_order)
    &&& if n.repos@.len() == 0 {
        &&& n == (App {
            repos: n.repos,
            repo_offset: 0,
            selected: 0,
            readme_content: None,
            readme_rendered_width: 0,
            ..o
        })
        &&& r is Continue
    } else {
        &&& n == (App { repos: n.repos, repo_offset: 0, ..o })
        &&& r == KeyOutcome::SelectRepo(0)
    }
}

/// The effect of a key on the panel that has the focus (for the keys that are
/// not global): Up and Down move the list's selection or the info panel's line,
/// or scroll the README by three lines; PageUp and PageDown scroll the README by
/// a page.
pub open spec fn panel_key_post(o: App, n: App, key: Key, r: KeyOutcome) -> bool {
    let up = key == Key::Up;
    let down = key == Key::Down;
    match o.focused_panel {
        Panel::Repos => {
            &&& n == o
            &&& if up && o.selected > 0 {
                r == KeyOutcome::SelectRepo((o.selected - 1) as usize)
            } else if down && o.selected + 1 < o.repos@.len() {
                r == KeyOutcome::SelectRepo((o.selected + 1) as usize)
            } else {
                r is Continue
            }
        },
        Panel::Info => {
            &&& r is Continue
            &&& if up && o.info_field > 0 {
                n == (App { info_field: (o.info_field - 1) as usize, ..o })
            } else if down && o.info_field + 1 < INFO_FIELD_COUNT {
                n == (App { info_field: (o.info_field + 1) as usize, ..o })
            } else {
                n == o
            }
        },
        Panel::Readme => {
            let delta = if up {
                -3
            } else if down {
                3
            } else if key == Key::PageUp {
                -page_step(o)
            } else if key == Key::PageDown {
                page_step(o)
            } else {
                0
            };
            &&& r is Continue
            &&& if delta == 0 {
                n == o
            } else {
                n == (App {
                    readme_scroll: clamp_int(o.readme_scroll + delta, 0, o.max_readme_scroll_of()) as u16,
                    ..o
                })
            }
        },
    }
}

/// The effect of a key while no prompt or message is open; j and k scroll the
/// README by three lines down or up, whichever panel has the focus.
pub open spec fn normal_key_post(o: App, n: App, key: Key, r: KeyOutcome) -> bool {
    let has_sel = o.selected < o.repos@.len();
    let sel = o.repos@[o.selected as int];
    match key {
        Key::Char('q') | Key::Esc => r is Quit && n == o,
        Key::Tab => r is Continue && n == (App { focused_panel: panel_after(o.focused_panel), ..o }),
        Key::BackTab => r is Continue && n == (App {
            focused_panel: panel_before(o.focused_panel),
            ..o
        }),
        Key::Enter => {
            &&& n == o
            &&& match o.focused_panel {
                Panel::Repos => r == KeyOutcome::SelectRepo(o.selected),
                Panel::Info => if o.info_field == 2 && has_sel {
                    r matches KeyOutcome::OpenUrl(u) && u@ == sel.url@
                } else {
                    r is Continue
                },
                Panel::Readme => r is Continue,
            }
        },
        Key::Char('p') => {
            &&& r is Continue
            &&& prompt_is(n.mode, publish_prompt_view())
            &&& n == (App { mode: n.mode, ..o })
        },
        Key::Char('c') => {
            &&& r is Continue
            &&& if has_sel {
                &&& prompt_is(n.mode, clone_prompt_view(sel.name@))
                &&& n == (App { mode: n.mode, ..o })
            } else {
                n == o
            }
        },
        Key::Char('s') => {
            &&& r is Continue
            &&& n.repos@ == ordered(o.base_list(), other_order(o.sort_order))
            &&& n == (App {
                sort_order: other_order(o.sort_order),
                repos: n.repos,
                selected: 0,
                repo_offset: 0,
                ..o
            })
        },
        Key::Char('v') => {
            let s = other_source(o.source);
            if s == RepoSource::Starred && o.starred is None {
                &&& r is FetchStarred
                &&& shows(n.status_msg, "Loading starred repos..."@)
                &&& n == (App { source: s, status_msg: n.status_msg, ..o })
            } else {
                switch_post(App { source: s, ..o }, n, r)
            }
        },
        Key::Char('r') => {
            &&& r == KeyOutcome::Refresh(o.source)
            &&& shows(n.status_msg, "Refreshing..."@)
            &&& n == (App { status_msg: n.status_msg, ..o })
        },
        Key::Char('o') => {
            &&& n == o
            &&& if has_sel {
                r matches KeyOutcome::OpenUrl(u) && u@ == sel.url@
            } else {
                r is Continue
            }
        },
        Key::Char('e') => {
            &&& r is Continue
            &&& if has_sel {
                &&& prompt_is(
                    n.mode,
                    edit_prompt_view(
                        match sel.description {
                            Some(d) => d@,
                            None => Seq::<char>::empty(),
                        },
                        sel.visibility@ == "private"@,
                    ),
                )
                &&& n == (App { mode: n.mode, ..o })
            } else {
                n == o
            }
        },
        Key::Char('j') => r is Continue && n == (App {
            readme_scroll: clamp_int(o.readme_scroll + 3, 0, o.max_readme_scroll_of()) as u16,
            ..o
        }),
        Key::Char('k') => r is Continue && n == (App {
            readme_scroll: clamp_int(o.readme_scroll - 3, 0, o.max_readme_scroll_of()) as u16,
            ..o
        }),
        _ => panel_key_post(o, n, key, r),
    }
}

impl App {
    /// Shows the list of the current source again after a switch: from the top,
    /// and with the first repository to be selected, or nothing when it is empty.
    pub fn finish_source_switch(&mut self) -> (r: KeyOutcome)
        requires
            old(self).wf(),
        ensures
            final(self).wf(),
            switch_post(*old(self), *final(self), r),
    {
        self.apply_sort();
        self.repo_offset = 0;
        if self.repos.len() == 0 {
            self.selected = 0;
            self.readme_content = None;
            self.invalidate_readme_layout();
            KeyOutcome::Continue
        } else {
            KeyOutcome::SelectRepo(0)
        }
    }

    /// Handles a key while no prompt or message is open.
    fn normal_key(&mut self, key: Key) -> (r: KeyOutcome)
        requires
            old(self).wf(),
            old(self).mode is Normal,
        ensures
            final(self).wf(),
            normal_key_post(*old(self), *final(self), key, r),
    {
        match key {
            Key::Char('q') | Key::Esc => {
                return KeyOutcome::Quit;
            },
            Key::Tab => {
                self.focused_panel = self.focused_panel.next();
                return KeyOutcome::Continue;
            },
            Key::BackTab => {
                self.focused_panel = self.focused_panel.prev();
                return KeyOutcome::Continue;
            },
            Key::Enter => {
                return match self.focused_panel {
                    Panel::Repos => KeyOutcome::SelectRepo(self.selected),
                    Panel::Info => {
                        if self.info_field == 2 && self.selected < self.repos.len() {
                            KeyOutcome::OpenUrl(self.repos[self.selected].url.clone())
                        } else {
                            KeyOutcome::Continue
                        }
                    },
                    Panel::Readme => KeyOutcome::Continue,
                };
            },
            Key::Char('p') => {
                self.mode = Mode::Prompt(publish_prompt());
                return KeyOutcome::Continue;
            },
            Key::Char('c') => {
                if self.selected < self.repos.len() {
                    let p = clone_prompt(self.repos[self.selected].name.as_str());
                    self.mode = Mode::Prompt(p);
                }
                return KeyOutcome::Continue;
            },
            Key::Char('s') => {
                self.sort_order = self.sort_order.toggle();
                self.apply_sort();
                self.selected = 0;
                self.repo_offset = 0;
                return KeyOutcome::Continue;
            },
            Key::Char('v') => {
                self.source = self.source.toggle();
                if self.source == RepoSource::Starred && self.starred.is_none() {
                    self.status_msg = Some("Loading starred repos...".to_string());
                    return KeyOutcome::FetchStarred;
                }
                return self.finish_source_switch();
            },
            Key::Char('r') => {
                self.status_msg = Some("Refreshing...".to_string());
                return KeyOutcome::Refresh(self.source);
            },
            Key::Char('o') => {
                if self.selected < self.repos.len() {
                    return KeyOutcome::OpenUrl(self.repos[self.selected].url.clone());
                }
                return KeyOutcome::Continue;
            },
            Key::Char('e') => {
                if self.selected < self.repos.len() {
                    let desc = match &self.repos[self.selected].description {
                        Some(d) => d.clone(),
                        None => String::new(),
                    };
                    let private = same_text(self.repos[self.selected].visibility.as_str(), "private");
                    let p = edit_prompt(desc.as_str(), private);
                    self.mode = Mode::Prompt(p);
                }
                return KeyOutcome::Continue;
            },
            Key::Char('j') => {
                self.readme_scroll_by(3);
                return KeyOutcome::Continue;
            },
            Key::Char('k') => {
                self.readme_scroll_by(-3);
                return KeyOutcome::Continue;
            },
            _ => {},
        }
        let up = key == Key::Up;
        let down = key == Key::Down;
        match self.focused_panel {
            Panel::Repos => {
                if up && self.selected > 0 {
                    KeyOutcome::SelectRepo(self.selected - 1)
                } else if down && self.selected < self.repos.len() && self.selected + 1
                    < self.repos.len() {
                    KeyOutcome::SelectRepo(self.selected + 1)
                } else {
                    KeyOutcome::Continue
                }
            },
            Panel::Info => {
                if up {
                    if self.info_field > 0 {
                        self.info_field = self.info_field - 1;
                    }
                } else if down {
                    if self.info_field + 1 < INFO_FIELD_COUNT {
                        self.info_field = self.info_field + 1;
                    }
                }
                KeyOutcome::Continue
            },
            Panel::Readme => {
                let v = self.readme_viewport();
                let p: u16 = if v > 1 { v - 1 } else { 0 };
                let page: i32 = if p > 1 { p as i32 } else { 1 };
                if up {
                    self.readme_scroll_by(-3);
                } else if down {
                    self.readme_scroll_by(3);
                } else if key == Key::PageUp {
                    self.readme_scroll_by(-page);
                } else if key == Key::PageDown {
                    self.readme_scroll_by(page);
                }
                KeyOutcome::Continue
            },
        }
    }
}

/// What submitting the prompt `p` does (the prompt is closed first): a publish
/// needs a path and a name, a clone a destination (both tilde-expanded); a clone
/// or an edit needs a selected repository, without one nothing happens. The
/// status bar says what runs.
pub open spec fn submit_post(o: App, n: App, p: PromptView, home: Seq<char>, r: KeyOutcome) -> bool {
    let f = p.fields;
    let has_sel = o.selected < o.repos@.len();
    let sel = o.repos@[o.selected as int];
    match p.kind {
        PromptKind::Publish => {
            let path = tilde_expanded(f[0].value, home);
            if path.len() == 0 || f[1].value.len() == 0 {
                &&& r is Continue
                &&& is_message(n.mode, "Path and name are required"@)
                &&& n == (App { mode: n.mode, ..o })
            } else {
                &&& r matches KeyOutcome::Run(SubmitPlan::Publish(opts)) && opts.local_path@ == path
                    && opts.name@ == f[1].value && opts.description@ == f[2].value && opts.private
                    == f[3].bool_val
                &&& shows(n.status_msg, "Publishing..."@)
                &&& n == (App { mode: Mode::Normal, status_msg: n.status_msg, ..o })
            }
        },
        PromptKind::Clone => {
            let dest = tilde_expanded(f[0].value, home);
            if dest.len() == 0 {
                &&& r is Continue
                &&& is_message(n.mode, "Destination is required"@)
                &&& n == (App { mode: n.mode, ..o })
            } else if has_sel {
                &&& r matches KeyOutcome::Run(SubmitPlan::Clone { url, destination }) && url@
                    == sel.url@ + ".git"@ && destination@ == dest
                &&& shows(n.status_msg, "Cloning..."@)
                &&& n == (App { mode: Mode::Normal, status_msg: n.status_msg, ..o })
            } else {
                &&& r is Continue
                &&& n == (App { mode: Mode::Normal, status_msg: None, ..o })
            }
        },
        PromptKind::EditDescription => {
            if has_sel {
                &&& r matches KeyOutcome::Run(SubmitPlan::Update { owner, name, opts }) && owner
                    == sel.owner && name == sel.name && shows(opts.description, f[0].value)
                    && opts.private == Some(f[1].bool_val)
                &&& shows(n.status_msg, "Saving..."@)
                &&& n == (App { mode: Mode::Normal, status_msg: n.status_msg, ..o })
            } else {
                &&& r is Continue
                &&& n == (App { mode: Mode::Normal, status_msg: None, ..o })
            }
        },
    }
}

/// The effect of a key while a prompt is open: Esc closes it, Enter submits it,
/// Tab on a path input without completions asks for them, and the other keys
/// edit it (see `prompt_after_key`).
pub open spec fn prompt_key_post(o: App, n: App, p: PromptView, key: Key, home: Seq<char>, r: KeyOutcome) -> bool {
    if key == Key::Esc {
        r is Continue && n == (App { mode: Mode::Normal, ..o })
    } else if key == Key::Enter {
        submit_post(o, n, p, home, r)
    } else if key == Key::Tab && needs_completions(focused_field(p)) {
        &&& r matches KeyOutcome::Complete(v) && v@ == focused_field(p).value
        &&& n == o
    } else {
        &&& r is Continue
        &&& prompt_is(n.mode, prompt_after_key(p, key))
        &&& n == (App { mode: n.mode, ..o })
    }
}

/// The effect of a key on the browser: a message closes on any key; a prompt
/// and the panels handle keys as `prompt_key_post` and `normal_key_post` say.
pub open spec fn key_post(o: App, n: App, key: Key, home: Seq<char>, r: KeyOutcome) -> bool {
    match o.mode {
        Mode::Message(_) => r is Continue && n == (App { mode: Mode::Normal, ..o }),
        Mode::Prompt(p) => prompt_key_post(o, n, p@, key, home, r),
        Mode::Normal => normal_key_post(o, n, key, r),
    }
}

impl App {
    /// Carries out a submitted prompt, as far as the browser can.
    fn submit(&mut self, p: PromptState, home: &str) -> (r: KeyOutcome)
        requires
            old(self).wf(),
            old(self).mode is Normal,
            p.wf(),
        ensures
            final(self).wf(),
            submit_post(*old(self), *final(self), p@, home@, r),
    {
        let ghost pv = p@;
        assert(pv.fields[0] == p.fields@[0]@);
        match p.kind {
            PromptKind::Publish => {
                assert(pv.fields[1] == p.fields@[1]@);
                assert(pv.fields[2] == p.fields@[2]@);
                assert(pv.fields[3] == p.fields@[3]@);
                let local_path = expand_tilde(p.fields[0].value.as_str(), home);
                let name = p.fields[1].value.clone();
                if chars_of(local_path.as_str()).len() == 0 || chars_of(name.as_str()).len() == 0 {
                    self.mode = Mode::Message("Path and name are required".to_string());
                    return KeyOutcome::Continue;
                }
                let opts = PublishOptions {
                    local_path,
                    name,
                    description: p.fields[2].value.clone(),
                    private: p.fields[3].bool_val,
                };
                self.status_msg = Some("Publishing...".to_string());
                KeyOutcome::Run(SubmitPlan::Publish(opts))
            },
            PromptKind::Clone => {
                let destination = expand_tilde(p.fields[0].value.as_str(), home);
                if chars_of(destination.as_str()).len() == 0 {
                    self.mode = Mode::Message("Destination is required".to_string());
                    return KeyOutcome::Continue;
                }
                if self.selected < self.repos.len() {
                    let mut url = self.repos[self.selected].url.clone();
                    url.append(".git");
                    self.status_msg = Some("Cloning...".to_string());
                    KeyOutcome::Run(SubmitPlan::Clone { url, destination })
                } else {
                    self.status_msg = None;
                    KeyOutcome::Continue
                }
            },
            PromptKind::EditDescription => {
                assert(pv.fields[1] == p.fields@[1]@);
                if self.selected < self.repos.len() {
                    let owner = self.repos[self.selected].owner.clone();
                    let name = self.repos[self.selected].name.clone();
                    let opts = UpdateRepoOptions {
                        description: Some(p.fields[0].value.clone()),
                        private: Some(p.fields[1].bool_val),
                    };
                    self.status_msg = Some("Saving...".to_string());
                    KeyOutcome::Run(SubmitPlan::Update { owner, name, opts })
                } else {
                    self.status_msg = None;
                    KeyOutcome::Continue
                }
            },
        }
    }

    /// Handles a key pressed on the keyboard; `home` is the home directory, for
    /// paths typed with `~`.
    pub fn handle_key(&mut self, key: Key, home: &str) -> (r: KeyOutcome)
        requires
            old(self).wf(),
        ensures
            final(self).wf(),
            final(self).info_field < INFO_FIELD_COUNT,
            key_post(*old(self), *final(self), key, home@, r),
    {
        let mut mode = Mode::Normal;
        std::mem::swap(&mut mode, &mut self.mode);
        match mode {
            Mode::Message(m) => KeyOutcome::Continue,
            Mode::Normal => self.normal_key(key),
            Mode::Prompt(mut state) => {
                let ghost pv = state@;
                if key == Key::Esc {
                    return KeyOutcome::Continue;
                }
                if key == Key::Enter {
                    return self.submit(state, home);
                }
                let i = state.focused;
                assert(state.fields@[i as int]@ == focused_field(pv));
                if key == Key::Tab && state.fields[i].is_path && (state.fields[i].completions.len()
                    == 0 || state.fields[i].completion_index.is_none()) {
                    let v = state.fields[i].value.clone();
                    self.mode = Mode::Prompt(state);
                    return KeyOutcome::Complete(v);
                }
                state.edit(key);
                self.mode = Mode::Prompt(state);
                KeyOutcome::Continue
            },
        }
    }
}

impl App {
    /// Hands the completions found for the focused path input to the open prompt
    /// (with no prompt open, nothing changes).
    pub fn apply_completions(&mut self, found: Vec<String>)
        requires
            old(self).wf(),
        ensures
            final(self).wf(),
            old(self).mode matches Mode::Prompt(p) ==> prompt_is(
                final(self).mode,
                prompt_with_completions(p@, found.deep_view()),
            ) && *final(self) == (App { mode: final(self).mode, ..*old(self) }),
            !(old(self).mode is Prompt) ==> *final(self) == *old(self),
    {
        let mut mode = Mode::Normal;
        std::mem::swap(&mut mode, &mut self.mode);
        match mode {
            Mode::Prompt(mut state) => {
                let ghost pv = state@;
                let n = state.fields.len();
                let i = state.focused;
                assert(state.fields@[i as int]@ == focused_field(pv));
                let next = (i + 1) % n;
                if found.len() == 0 {
                    state.focused = next;
                    assert(state@ =~= prompt_with_completions(pv, found.deep_view()));
                } else {
                    let mut f = state.fields.remove(i);
                    assert(f == old(self).mode->Prompt_0.fields@[i as int]);
                    let only_same = found.len() == 1 && same_text(found[0].as_str(), f.value.as_str());
                    let ghost fv = f@;
                    if only_same {
                        f.completions = Vec::new();
                        f.completion_index = None;
                        assert(f.completions.deep_view() =~= Seq::<Seq<char>>::empty());
                    } else {
                        f.value = found[0].clone();
                        f.completions = found;
                        f.completion_index = Some(0);
                    }
                    let ghost nv = f@;
                    state.fields.insert(i, f);
                    proof {
                        assert forall|k: int| 0 <= k < state.fields@.len() && k != i implies state.fields@[k]
                            == old(self).mode->Prompt_0.fields@[k] by {
                            if k < i {
                                assert(state.fields@[k] == old(self).mode->Prompt_0.fields@.remove(i as int)[k]);
                            } else {
                                assert(state.fields@[k] == old(self).mode->Prompt_0.fields@.remove(i as int)[k - 1]);
                            }
                        }
                        assert(state@.fields =~= pv.fields.update(i as int, nv));
                    }
                    if only_same {
                        state.focused = next;
                    }
                    proof {
                        assert(state@ =~= prompt_with_completions(pv, found.deep_view()));
                        assert forall|k: int| 0 <= k < state.fields@.len() implies (#[trigger] state.fields@[k]).wf() by {
                            if k != i {
                                assert(old(self).mode->Prompt_0.fields@[k].wf());
                            }
                        }
                    }
                }
                self.mode = Mode::Prompt(state);
            },
            other => {
                self.mode = other;
            },
        }
    }

    /// Takes in the starred list once fetched and shows it (see `switch_post`).
    pub fn starred_loaded(&mut self, list: Vec<Repo>) -> (r: KeyOutcome)
        requires
            old(self).wf(),
        ensures
            final(self).wf(),
            final(self).starred matches Some(v) && v@ == list@,
            switch_post(
                App { starred: final(self).starred, status_msg: None, ..*old(self) },
                *final(self),
                r,
            ),
    {
        self.starred = Some(list);
        self.status_msg = None;
        self.finish_source_switch()
    }

    /// Takes in the list of the current source once fetched again: it is shown in
    /// the current order, the selection is kept within it, and the list scrolls
    /// to show it.
    pub fn refreshed(&mut self, list: Vec<Repo>)
        requires
            old(self).wf(),
        ensures
            final(self).wf(),
            old(self).source == RepoSource::Mine ==> final(self).mine@ == list@ && final(self).starred
                == old(self).starred,
            old(self).source == RepoSource::Starred ==> final(self).mine == old(self).mine
                && (final(self).starred matches Some(v) && v@ == list@),
            final(self).repos@ == ordered(
                (App { mine: final(self).mine, starred: final(self).starred, ..*old(self) }).base_list(),
                old(self).sort_order,
            ),
            final(self).selected == (if old(self).selected >= final(self).repos@.len() {
                sat_sub(final(self).repos@.len() as int, 1)
            } else {
                old(self).selected as int
            }),
            final(self).repo_offset == (App {
                repos: final(self).repos,
                selected: final(self).selected,
                repo_offset: min_int(
                    old(self).repo_offset as int,
                    (App { repos: final(self).repos, ..*old(self) }).max_repo_offset(),
                ) as usize,
                ..*old(self)
            }).offset_showing_selection(),
            *final(self) == (App {
                mine: final(self).mine,
                starred: final(self).starred,
                repos: final(self).repos,
                selected: final(self).selected,
                repo_offset: final(self).repo_offset,
                status_msg: None,
                ..*old(self)
            }),
    {
        match self.source {
            RepoSource::Mine => self.set_mine(list),
            RepoSource::Starred => self.set_starred(list),
        }
        if self.selected >= self.repos.len() {
            self.selected = if self.repos.len() > 0 {
                self.repos.len() - 1
            } else {
                0
            };
        }
        self.clamp_repo_offset();
        self.ensure_selected_visible();
        self.status_msg = None;
    }

    /// After publishing: on success the user's list as fetched again is taken
    /// in, else the error is shown; the status bar is cleared.
    pub fn finish_publish(&mut self, result: Result<Vec<Repo>, String>)
        requires
            old(self).wf(),
        ensures
            final(self).wf(),
            final(self).status_msg is None,
            match result {
                Ok(list) => final(self).mine@ == list@ && final(self).repos@ == ordered(
                    (App { mine: final(self).mine, ..*old(self) }).base_list(),
                    old(self).sort_order,
                ) && *final(self) == (App {
                    mine: final(self).mine,
                    repos: final(self).repos,
                    status_msg: None,
                    ..*old(self)
                }),
                Err(e) => is_message(final(self).mode, "Error: "@ + e@) && *final(self) == (App {
                    mode: final(self).mode,
                    status_msg: None,
                    ..*old(self)
                }),
            },
    {
        match result {
            Ok(list) => {
                self.set_mine(list);
                self.status_msg = Some("Published successfully!".to_string());
            },
            Err(e) => {
                let mut m = "Error: ".to_string();
                m.append(e.as_str());
                self.mode = Mode::Message(m);
            },
        }
        self.status_msg = None;
    }

    /// After cloning: a failure is shown; the status bar is cleared.
    pub fn finish_clone(&mut self, result: Result<(), String>, destination: &str)
        requires
            old(self).wf(),
        ensures
            final(self).wf(),
            match result {
                Ok(_) => *final(self) == (App { status_msg: None, ..*old(self) }),
                Err(e) => is_message(final(self).mode, "Error: "@ + e@) && *final(self) == (App {
                    mode: final(self).mode,
                    status_msg: None,
                    ..*old(self)
                }),
            },
    {
        match result {
            Ok(()) => {
                let mut m = "Cloned to ".to_string();
                m.append(destination);
                self.status_msg = Some(m);
            },
            Err(e) => {
                let mut m = "Error: ".to_string();
                m.append(e.as_str());
                self.mode = Mode::Message(m);
            },
        }
        self.status_msg = None;
    }

    /// After a settings update: on success the current list as fetched again is
    /// taken in, else the error is shown; the status bar is cleared.
    pub fn finish_update(&mut self, result: Result<Vec<Repo>, String>)
        requires
            old(self).wf(),
        ensures
            final(self).wf(),
            match result {
                Ok(list) => {
                    &&& old(self).source == RepoSource::Mine ==> final(self).mine@ == list@
                        && final(self).starred == old(self).starred
                    &&& old(self).source == RepoSource::Starred ==> final(self).mine == old(self).mine
                        && (final(self).starred matches Some(v) && v@ == list@)
                    &&& final(self).repos@ == ordered(
                        (App {
                            mine: final(self).mine,
                            starred: final(self).starred,
                            ..*old(self)
                        }).base_list(),
                        old(self).sort_order,
                    )
                    &&& *final(self) == (App {
                        mine: final(self).mine,
                        starred: final(self).starred,
                        repos: final(self).repos,
                        status_msg: None,
                        ..*old(self)
                    })
                },
                Err(e) => is_message(final(self).mode, "Error: "@ + e@) && *final(self) == (App {
                    mode: final(self).mode,
                    status_msg: None,
                    ..*old(self)
                }),
            },
    {
        match result {
            Ok(list) => {
                match self.source {
                    RepoSource::Mine => self.set_mine(list),
                    RepoSource::Starred => self.set_starred(list),
                }
                self.status_msg = Some("Updated!".to_string());
            },
            Err(e) => {
                let mut m = "Error: ".to_string();
                m.append(e.as_str());
                self.mode = Mode::Message(m);
            },
        }
        self.status_msg = None;
    }
}

/// The effect of a mouse action: nothing while a prompt is open; a click
/// closes a message; the wheel scrolls the list (one row) or the README (three
/// lines) under the pointer; a click focuses the panel under it, and picks the
/// repository or the info line under it.
pub open spec fn mouse_post(o: App, n: App, kind: MouseKind, x: u16, y: u16, r: Option<usize>) -> bool {
    match o.mode {
        Mode::Prompt(_) => r is None && n == o,
        Mode::Message(_) => r is None && if kind == MouseKind::LeftDown {
            n == (App { mode: Mode::Normal, ..o })
        } else {
            n == o
        },
        Mode::Normal => match kind {
            MouseKind::ScrollUp | MouseKind::ScrollDown => {
                let d: int = if kind == MouseKind::ScrollUp {
                    -1
                } else {
                    1
                };
                &&& r is None
                &&& match o.panel_under(x, y) {
                    Some(Panel::Repos) => n == (App {
                        repo_offset: clamp_int(o.repo_offset + d, 0, o.max_repo_offset()) as usize,
                        ..o
                    }),
                    Some(Panel::Readme) => n == (App {
                        readme_scroll: clamp_int(o.readme_scroll + 3 * d, 0, o.max_readme_scroll_of()) as u16,
                        ..o
                    }),
                    _ => n == o,
                }
            },
            MouseKind::LeftDown => match o.panel_under(x, y) {
                None => r is None && n == o,
                Some(panel) => {
                    let f = App { focused_panel: panel, ..o };
                    match panel {
                        Panel::Repos => n == f && match o.repo_row_under(x, y) {
                            Some(i) => if i != o.selected {
                                r == Some(i)
                            } else {
                                r is None
                            },
                            None => r is None,
                        },
                        Panel::Info => r is None && match o.info_row_under(x, y) {
                            Some(row) => n == (App { info_field: row, ..f }),
                            None => n == f,
                        },
                        Panel::Readme => r is None && n == f,
                    }
                },
            },
            MouseKind::Other => r is None && n == o,
        },
    }
}

impl App {
    /// Handles a mouse action at the cell (`x`, `y`); returns the repository to
    /// select, if the action picked a new one.
    pub fn handle_mouse(&mut self, kind: MouseKind, x: u16, y: u16) -> (r: Option<usize>)
        requires
            old(self).wf(),
        ensures
            final(self).wf(),
            final(self).info_field < INFO_FIELD_COUNT,
            mouse_post(*old(self), *final(self), kind, x, y, r),
    {
        match &self.mode {
            Mode::Prompt(_) => {
                return None;
            },
            Mode::Message(_) => {
                if kind == MouseKind::LeftDown {
                    self.mode = Mode::Normal;
                }
                return None;
            },
            Mode::Normal => {},
        }
        match kind {
            MouseKind::ScrollUp => {
                match self.panel_at(x, y) {
                    Some(Panel::Repos) => self.scroll_repo_list(-1),
                    Some(Panel::Readme) => self.readme_scroll_by(-3),
                    _ => {},
                }
                None
            },
            MouseKind::ScrollDown => {
                match self.panel_at(x, y) {
                    Some(Panel::Repos) => self.scroll_repo_list(1),
                    Some(Panel::Readme) => self.readme_scroll_by(3),
                    _ => {},
                }
                None
            },
            MouseKind::LeftDown => {
                let panel = match self.panel_at(x, y) {
                    Some(p) => p,
                    None => {
                        return None;
                    },
                };
                self.focused_panel = panel;
                match panel {
                    Panel::Repos => {
                        match self.repo_row_at(x, y) {
                            Some(index) => {
                                if index != self.selected {
                                    Some(index)
                                } else {
                                    None
                                }
                            },
                            None => None,
                        }
                    },
                    Panel::Info => {
                        match self.info_row_at(x, y) {
                            Some(row) => {
                                self.info_field = row;
                            },
                            None => {},
                        }
                        None
                    },
                    Panel::Readme => None,
                }
            },
            MouseKind::Other => None,
        }
    }

}

} // verus!

verus! {

/// The rows a page key scrolls the README by: one less than the rows of the
/// README panel inside its border, at least one.
pub open spec fn readme_page(a: App) -> int {
    let rows = sat_sub(a.areas.readme.height as int, 2);
    if rows - 1 > 1 {
        rows - 1
    } else {
        1
    }
}

/// With the README focused, PageUp never scrolls it down: it goes up by a page,
/// stopping at the top; PageDown never scrolls it up while it is within its lines.
pub proof fn lemma_page_keys(o: App, n: App, home: Seq<char>, r: KeyOutcome)
    requires
        o.mode is Normal,
        o.focused_panel == Panel::Readme,
    ensures
        key_post(o, n, Key::PageUp, home, r) ==> {
            &&& r is Continue
            &&& n.readme_scroll <= o.readme_scroll
            &&& o.readme_scroll <= o.max_readme_scroll_of() ==> n.readme_scroll == sat_sub(
                o.readme_scroll as int,
                readme_page(o),
            )
        },
        key_post(o, n, Key::PageDown, home, r) ==> {
            &&& r is Continue
            &&& o.readme_scroll <= o.max_readme_scroll_of() ==> n.readme_scroll >= o.readme_scroll
            &&& n.readme_scroll == min_int(o.readme_scroll + readme_page(o), o.max_readme_scroll_of())
        },
{
}

/// From the top of the README, PageDown followed by PageUp comes back to the top.
pub proof fn lemma_page_down_up(o: App, m: App, n: App, home: Seq<char>, r1: KeyOutcome, r2: KeyOutcome)
    requires
        o.mode is Normal,
        o.focused_panel == Panel::Readme,
        o.readme_scroll == 0,
        key_post(o, m, Key::PageDown, home, r1),
        key_post(m, n, Key::PageUp, home, r2),
    ensures
        n.readme_scroll == 0,
{
    lemma_page_keys(o, m, home, r1);
    lemma_page_keys(m, n, home, r2);
}

} // verus!

verus! {

/// j scrolls the README three lines down and k three lines up, whichever panel
/// has the focus, leaving the selection, the list and the info line alone.
pub proof fn lemma_j_k(o: App, n: App, home: Seq<char>, r: KeyOutcome)
    requires
        o.mode is Normal,
    ensures
        key_post(o, n, Key::Char('j'), home, r) ==> {
            &&& r is Continue
            &&& n.selected == o.selected && n.repo_offset == o.repo_offset
            &&& n.info_field == o.info_field && n.focused_panel == o.focused_panel
            &&& n.readme_scroll == min_int(o.readme_scroll + 3, o.max_readme_scroll_of())
            &&& o.readme_scroll <= o.max_readme_scroll_of() ==> n.readme_scroll >= o.readme_scroll
        },
        key_post(o, n, Key::Char('k'), home, r) ==> {
            &&& r is Continue
            &&& n.selected == o.selected && n.repo_offset == o.repo_offset
            &&& n.info_field == o.info_field && n.focused_panel == o.focused_panel
            &&& n.readme_scroll <= o.readme_scroll
            &&& o.readme_scroll <= o.max_readme_scroll_of() ==> n.readme_scroll == sat_sub(
                o.readme_scroll as int,
                3,
            )
        },
{
}

/// With the list focused, Up asks for the repository above the selected one and
/// Down for the one below, when there is one; nothing else changes.
pub proof fn lemma_list_up_down(o: App, n: App, home: Seq<char>, r: KeyOutcome)
    requires
        o.mode is Normal,
        o.focused_panel == Panel::Repos,
    ensures
        key_post(o, n, Key::Up, home, r) ==> n == o && (if o.selected > 0 {
            r == KeyOutcome::SelectRepo((o.selected - 1) as usize)
        } else {
            r is Continue
        }),
        key_post(o, n, Key::Down, home, r) ==> n == o && (if o.selected + 1 < o.repos@.len() {
            r == KeyOutcome::SelectRepo((o.selected + 1) as usize)
        } else {
            r is Continue
        }),
{
}

/// With the info panel focused, Up and Down move its selected line by one, within
/// its eight lines; nothing else changes.
pub proof fn lemma_info_up_down(o: App, n: App, home: Seq<char>, r: KeyOutcome)
    requires
        o.mode is Normal,
        o.focused_panel == Panel::Info,
    ensures
        key_post(o, n, Key::Up, home, r) ==> r is Continue && n == (App {
            info_field: (if o.info_field > 0 {
                o.info_field - 1
            } else {
                0
            }) as usize,
            ..o
        }),
        key_post(o, n, Key::Down, home, r) ==> r is Continue && n == (App {
            info_field: (if o.info_field + 1 < 8 {
                o.info_field + 1
            } else {
                o.info_field as int
            }) as usize,
            ..o
        }),
{
}

} // verus!

verus! {

/// Enter on a prompt always closes it; a publish is carried out only with a local
/// path and a name, a clone only with a destination and a selected repository,
/// and an edit only with a selected repository.
pub proof fn lemma_submit_needs(o: App, n: App, home: Seq<char>, r: KeyOutcome)
    requires
        o.mode matches Mode::Prompt(p) && p.wf(),
        key_post(o, n, Key::Enter, home, r),
    ensures
        !(n.mode is Prompt),
        ({
            let p = o.mode->Prompt_0@;
            let has_sel = o.selected < o.repos@.len();
            &&& p.kind == PromptKind::Publish ==> (r is Run <==> tilde_expanded(p.fields[0].value, home).len()
                > 0 && p.fields[1].value.len() > 0)
            &&& p.kind == PromptKind::Clone ==> (r is Run <==> tilde_expanded(p.fields[0].value, home).len()
                > 0 && has_sel)
            &&& p.kind == PromptKind::EditDescription ==> (r is Run <==> has_sel)
            &&& !(r is Run) ==> n.repos == o.repos && n.selected == o.selected
        }),
{
}

} // verus!

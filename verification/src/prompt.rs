use vstd::prelude::*;
use vstd::string::StringExecFns;
use crate::input::Key;
use crate::paths::{backspace_path, drop_last_char, path_backspace, popped};
use crate::text::{chars_of, push_char};

verus! {

broadcast use vstd::string::group_string_axioms;

/// What a prompt asks for.
#[derive(Debug, Clone, Copy, PartialEq, Eq, Structural)]
pub enum PromptKind {
    Publish,
    Clone,
    EditDescription,
}

/// One input of a prompt: a text, a path (with completion) or a yes/no toggle.
#[derive(Debug)]
pub struct PromptField {
    pub label: String,
    pub value: String,
    pub is_bool: bool,
    pub bool_val: bool,
    pub is_path: bool,
    pub completions: Vec<String>,
    pub completion_index: Option<usize>,
}

impl PromptField {
    /// A text input holding `default`.
    pub fn text(label: &str, default: &str) -> (f: Self)
        ensures
            f.label@ == label@,
            f.value@ == default@,
            f.is_text(),
            !f.bool_val,
            f.completions@.len() == 0,
            f.completion_index is None,
    {
        PromptField {
            label: label.to_string(),
            value: default.to_string(),
            is_bool: false,
            bool_val: false,
            is_path: false,
            completions: Vec::new(),
            completion_index: None,
        }
    }

    /// A path input holding `default`.
    pub fn path(label: &str, default: &str) -> (f: Self)
        ensures
            f.label@ == label@,
            f.value@ == default@,
            f.is_path_input(),
            !f.bool_val,
            f.completions@.len() == 0,
            f.completion_index is None,
    {
        PromptField {
            label: label.to_string(),
            value: default.to_string(),
            is_bool: false,
            bool_val: false,
            is_path: true,
            completions: Vec::new(),
            completion_index: None,
        }
    }

    /// A yes/no input set to `default`.
    pub fn toggle(label: &str, default: bool) -> (f: Self)
        ensures
            f.label@ == label@,
            f.value@ == Seq::<char>::empty(),
            f.is_toggle(),
            f.bool_val == default,
            f.completions@.len() == 0,
            f.completion_index is None,
    {
        PromptField {
            label: label.to_string(),
            value: String::new(),
            is_bool: true,
            bool_val: default,
            is_path: false,
            completions: Vec::new(),
            completion_index: None,
        }
    }

    /// A plain text input.
    pub open spec fn is_text(&self) -> bool {
        !self.is_bool && !self.is_path
    }

    /// A path input.
    pub open spec fn is_path_input(&self) -> bool {
        !self.is_bool && self.is_path
    }

    /// A yes/no input.
    pub open spec fn is_toggle(&self) -> bool {
        self.is_bool && !self.is_path
    }

    /// The chosen completion, if any, is one of the completions.
    pub open spec fn wf(&self) -> bool {
        self.completion_index matches Some(i) ==> i < self.completions@.len()
    }
}

/// A dialog that asks for some inputs.
#[derive(Debug)]
pub struct PromptState {
    pub kind: PromptKind,
    pub fields: Vec<PromptField>,
    pub focused: usize,
}

/// The inputs that each kind of prompt has: publishing asks for a local path, a
/// name, a description and privacy; cloning for a destination; editing for a
/// description and privacy.
pub open spec fn prompt_shape(kind: PromptKind, fields: Seq<PromptField>) -> bool {
    match kind {
        PromptKind::Publish => {
            &&& fields.len() == 4
            &&& fields[0].is_path_input()
            &&& fields[1].is_text()
            &&& fields[2].is_text()
            &&& fields[3].is_toggle()
        },
        PromptKind::Clone => fields.len() == 1 && fields[0].is_path_input(),
        PromptKind::EditDescription => {
            &&& fields.len() == 2
            &&& fields[0].is_text()
            &&& fields[1].is_toggle()
        },
    }
}

impl PromptState {
    /// The prompt has the inputs of its kind, one of them has the focus, and every
    /// chosen completion is one of its input's completions.
    pub open spec fn wf(&self) -> bool {
        &&& prompt_shape(self.kind, self.fields@)
        &&& self.focused < self.fields@.len()
        &&& forall|i: int| 0 <= i < self.fields@.len() ==> (#[trigger] self.fields@[i]).wf()
    }
}

/// What an input of a prompt holds, seen as plain values.
#[verifier::ext_equal]
pub struct FieldView {
    pub label: Seq<char>,
    pub value: Seq<char>,
    pub is_bool: bool,
    pub bool_val: bool,
    pub is_path: bool,
    pub completions: Seq<Seq<char>>,
    pub completion_index: Option<usize>,
}

impl View for PromptField {
    type V = FieldView;

    open spec fn view(&self) -> FieldView {
        FieldView {
            label: self.label@,
            value: self.value@,
            is_bool: self.is_bool,
            bool_val: self.bool_val,
            is_path: self.is_path,
            completions: self.completions.deep_view(),
            completion_index: self.completion_index,
        }
    }
}

/// What a prompt holds, seen as plain values.
#[verifier::ext_equal]
pub struct PromptView {
    pub kind: PromptKind,
    pub fields: Seq<FieldView>,
    pub focused: usize,
}

impl View for PromptState {
    type V = PromptView;

    open spec fn view(&self) -> PromptView {
        PromptView {
            kind: self.kind,
            fields: self.fields@.map_values(|f: PromptField| f@),
            focused: self.focused,
        }
    }
}

/// The input after the focused one, cyclically.
pub open spec fn focus_after(p: PromptView) -> usize {
    ((p.focused + 1) % (p.fields.len() as int)) as usize
}

/// The input before the focused one, cyclically.
pub open spec fn focus_before(p: PromptView) -> usize {
    if p.focused > 0 {
        (p.focused - 1) as usize
    } else {
        (p.fields.len() - 1) as usize
    }
}

/// `p` with the focus on input `i`.
pub open spec fn focus_on(p: PromptView, i: usize) -> PromptView {
    PromptView { focused: i, ..p }
}

/// `p` with the focused input replaced by `f`.
pub open spec fn with_focused(p: PromptView, f: FieldView) -> PromptView {
    PromptView { fields: p.fields.update(p.focused as int, f), ..p }
}

/// The focused input of `p`.
pub open spec fn focused_field(p: PromptView) -> FieldView {
    p.fields[p.focused as int]
}

/// A path input must look for completions on Tab: it has none, or none is chosen.
pub open spec fn needs_completions(f: FieldView) -> bool {
    f.is_path && (f.completions.len() == 0 || f.completion_index is None)
}

/// How a key changes an open prompt, for the keys that leave it open (all but
/// Esc, Enter, and Tab on a path input that needs completions).
pub open spec fn prompt_after_key(p: PromptView, key: Key) -> PromptView {
    let f = focused_field(p);
    match key {
        Key::Tab => if f.is_path {
            match f.completion_index {
                Some(i) => {
                    let n = ((i + 1) % (f.completions.len() as int)) as usize;
                    with_focused(
                        p,
                        FieldView { completion_index: Some(n), value: f.completions[n as int], ..f },
                    )
                },
                None => p,
            }
        } else {
            focus_on(p, focus_after(p))
        },
        Key::BackTab => if f.is_path && f.completions.len() > 0 {
            match f.completion_index {
                Some(i) => {
                    let n = if i == 0 {
                        (f.completions.len() - 1) as usize
                    } else {
                        (i - 1) as usize
                    };
                    with_focused(
                        p,
                        FieldView { completion_index: Some(n), value: f.completions[n as int], ..f },
                    )
                },
                None => p,
            }
        } else {
            focus_on(p, focus_before(p))
        },
        Key::Down => focus_on(p, focus_after(p)),
        Key::Up => focus_on(p, focus_before(p)),
        Key::Char(c) => if f.is_bool {
            if c == ' ' {
                with_focused(p, FieldView { bool_val: !f.bool_val, ..f })
            } else {
                p
            }
        } else {
            with_focused(
                p,
                FieldView {
                    value: f.value.push(c),
                    completions: Seq::<Seq<char>>::empty(),
                    completion_index: None,
                    ..f
                },
            )
        },
        Key::Backspace => if f.is_bool {
            p
        } else if f.is_path && f.value.len() > 0 {
            with_focused(
                p,
                FieldView {
                    value: path_backspace(f.value),
                    completions: Seq::<Seq<char>>::empty(),
                    completion_index: None,
                    ..f
                },
            )
        } else {
            with_focused(p, FieldView { value: popped(f.value), ..f })
        },
        _ => p,
    }
}

/// How completions found for the focused path input change the prompt: none
/// found moves the focus on; the input's own text as the only one clears the
/// completions and moves on; else the first completion is chosen and typed in.
pub open spec fn prompt_with_completions(p: PromptView, found: Seq<Seq<char>>) -> PromptView {
    let f = focused_field(p);
    if found.len() == 0 {
        focus_on(p, focus_after(p))
    } else if found.len() == 1 && found[0] == f.value {
        focus_on(
            with_focused(
                p,
                FieldView { completions: Seq::<Seq<char>>::empty(), completion_index: None, ..f },
            ),
            focus_after(p),
        )
    } else {
        with_focused(
            p,
            FieldView { completions: found, completion_index: Some(0), value: found[0], ..f },
        )
    }
}

impl PromptState {
    /// The prompt after a key that leaves it open (see `prompt_after_key`).
    pub(crate) fn edit(&mut self, key: Key)
        requires
            old(self).wf(),
            key != Key::Esc,
            key != Key::Enter,
            !(key == Key::Tab && needs_completions(focused_field(old(self)@))),
        ensures
            final(self).wf(),
            final(self)@ == prompt_after_key(old(self)@, key),
    {
        let ghost p = self@;
        let n = self.fields.len();
        let i = self.focused;
        assert(self.fields@[i as int]@ == focused_field(p));
        match key {
            Key::Down => {
                self.focused = (i + 1) % n;
                assert(self@ =~= prompt_after_key(p, key));
                return ;
            },
            Key::Up => {
                self.focused = if i > 0 { i - 1 } else { n - 1 };
                assert(self@ =~= prompt_after_key(p, key));
                return ;
            },
            Key::Tab => {
                if !self.fields[i].is_path {
                    self.focused = (i + 1) % n;
                    assert(self@ =~= prompt_after_key(p, key));
                    return ;
                }
            },
            Key::BackTab => {
                if !(self.fields[i].is_path && self.fields[i].completions.len() > 0) {
                    self.focused = if i > 0 { i - 1 } else { n - 1 };
                    assert(self@ =~= prompt_after_key(p, key));
                    return ;
                }
            },
            _ => {},
        }
        let mut f = self.fields.remove(i);
        let ghost fv = f@;
        assert(f == old(self).fields@[i as int]);
        assert(f.wf());
        let mut changed = true;
        match key {
            Key::Tab => {
                match f.completion_index {
                    Some(idx) => {
                        let len = f.completions.len();
                        assert(idx < len);
                        let next = if idx + 1 < len {
                            idx + 1
                        } else {
                            0
                        };
                        proof {
                            if idx + 1 < len {
                                vstd::arithmetic::div_mod::lemma_small_mod(
                                    (idx + 1) as nat,
                                    len as nat,
                                );
                            } else {
                                vstd::arithmetic::div_mod::lemma_mod_self_0(len as int);
                            }
                        }
                        assert(next == (idx + 1) % (len as int));
                        f.completion_index = Some(next);
                        f.value = f.completions[next].clone();
                    },
                    None => {
                        changed = false;
                    },
                }
            },
            Key::BackTab => {
                match f.completion_index {
                    Some(idx) => {
                        let prev = if idx == 0 {
                            f.completions.len() - 1
                        } else {
                            idx - 1
                        };
                        f.completion_index = Some(prev);
                        f.value = f.completions[prev].clone();
                    },
                    None => {
                        changed = false;
                    },
                }
            },
            Key::Char(c) => {
                if f.is_bool {
                    if c == ' ' {
                        f.bool_val = !f.bool_val;
                    } else {
                        changed = false;
                    }
                } else {
                    push_char(&mut f.value, c);
                    f.completions = Vec::new();
                    f.completion_index = None;
                    assert(f.completions.deep_view() =~= Seq::<Seq<char>>::empty());
                }
            },
            Key::Backspace => {
                if f.is_bool {
                    changed = false;
                } else if f.is_path && chars_of(f.value.as_str()).len() > 0 {
                    f.value = backspace_path(f.value.as_str());
                    f.completions = Vec::new();
                    f.completion_index = None;
                    assert(f.completions.deep_view() =~= Seq::<Seq<char>>::empty());
                } else {
                    f.value = drop_last_char(f.value.as_str());
                }
            },
            _ => {
                changed = false;
            },
        }
        let ghost nv = f@;
        assert(f.wf());
        assert(f.is_bool == fv.is_bool && f.is_path == fv.is_path);
        if changed {
            assert(prompt_after_key(p, key) =~= with_focused(p, nv));
        } else {
            assert(nv == fv);
            assert(prompt_after_key(p, key) == p);
        }
        self.fields.insert(i, f);
        proof {
            assert forall|k: int| 0 <= k < self.fields@.len() && k != i implies self.fields@[k]
                == old(self).fields@[k] by {
                if k < i {
                    assert(self.fields@[k] == old(self).fields@.remove(i as int)[k]);
                } else {
                    assert(self.fields@[k] == old(self).fields@.remove(i as int)[k - 1]);
                }
            }
            assert(self@.fields =~= p.fields.update(i as int, nv));
            if !changed {
                assert(p.fields.update(i as int, nv) =~= p.fields);
            }
            assert(self@ =~= prompt_after_key(p, key));
            assert forall|k: int| 0 <= k < self.fields@.len() implies (#[trigger] self.fields@[k]).wf() by {
                if k != i {
                    assert(old(self).fields@[k].wf());
                }
            }
        }
    }
}

/// A text input, seen as plain values.
pub open spec fn text_field_view(label: Seq<char>, value: Seq<char>) -> FieldView {
    FieldView {
        label,
        value,
        is_bool: false,
        bool_val: false,
        is_path: false,
        completions: Seq::<Seq<char>>::empty(),
        completion_index: None,
    }
}

/// A path input, seen as plain values.
pub open spec fn path_field_view(label: Seq<char>, value: Seq<char>) -> FieldView {
    FieldView { is_path: true, ..text_field_view(label, value) }
}

/// A yes/no input, seen as plain values.
pub open spec fn toggle_field_view(label: Seq<char>, on: bool) -> FieldView {
    FieldView { is_bool: true, bool_val: on, ..text_field_view(label, Seq::<char>::empty()) }
}

/// The prompt that publishing opens: local path (from `~/`), repository name,
/// description, and privacy (off).
pub open spec fn publish_prompt_view() -> PromptView {
    PromptView {
        kind: PromptKind::Publish,
        fields: seq![
            path_field_view("Local path"@, "~/"@),
            text_field_view("Repo name"@, Seq::<char>::empty()),
            text_field_view("Description"@, Seq::<char>::empty()),
            toggle_field_view("Private"@, false),
        ],
        focused: 0,
    }
}

/// The prompt that cloning opens: the destination, `~/` and the repository's name.
pub open spec fn clone_prompt_view(name: Seq<char>) -> PromptView {
    PromptView {
        kind: PromptKind::Clone,
        fields: seq![path_field_view("Destination"@, "~/"@ + name)],
        focused: 0,
    }
}

/// The prompt that editing opens: the description and the privacy as they are.
pub open spec fn edit_prompt_view(desc: Seq<char>, private: bool) -> PromptView {
    PromptView {
        kind: PromptKind::EditDescription,
        fields: seq![text_field_view("Description"@, desc), toggle_field_view("Private"@, private)],
        focused: 0,
    }
}

proof fn lemma_fields_view(fields: Seq<PromptField>, views: Seq<FieldView>)
    requires
        fields.len() == views.len(),
        forall|i: int| 0 <= i < fields.len() ==> (#[trigger] fields[i])@ == views[i],
    ensures
        fields.map_values(|f: PromptField| f@) == views,
{
    assert(fields.map_values(|f: PromptField| f@) =~= views);
}

/// The prompt that publishing opens.
pub(crate) fn publish_prompt() -> (p: PromptState)
    ensures
        p.wf(),
        p@ == publish_prompt_view(),
{
    let f0 = PromptField::path("Local path", "~/");
    let f1 = PromptField::text("Repo name", "");
    let f2 = PromptField::text("Description", "");
    let f3 = PromptField::toggle("Private", false);
    proof {
        assert(f0.completions.deep_view() =~= Seq::<Seq<char>>::empty());
        assert(f1.completions.deep_view() =~= Seq::<Seq<char>>::empty());
        assert(f2.completions.deep_view() =~= Seq::<Seq<char>>::empty());
        assert(f3.completions.deep_view() =~= Seq::<Seq<char>>::empty());
        assert(""@ =~= Seq::<char>::empty()) by {
            reveal_strlit("");
        }
    }
    let p = PromptState { kind: PromptKind::Publish, fields: vec![f0, f1, f2, f3], focused: 0 };
    proof {
        lemma_fields_view(p.fields@, publish_prompt_view().fields);
    }
    p
}

/// The prompt that cloning a repository of this name opens.
pub(crate) fn clone_prompt(name: &str) -> (p: PromptState)
    ensures
        p.wf(),
        p@ == clone_prompt_view(name@),
{
    let mut dest = "~/".to_string();
    dest.append(name);
    let f0 = PromptField::path("Destination", dest.as_str());
    proof {
        assert(f0.completions.deep_view() =~= Seq::<Seq<char>>::empty());
    }
    let p = PromptState { kind: PromptKind::Clone, fields: vec![f0], focused: 0 };
    proof {
        lemma_fields_view(p.fields@, clone_prompt_view(name@).fields);
    }
    p
}

/// The prompt that editing a repository opens.
pub(crate) fn edit_prompt(desc: &str, private: bool) -> (p: PromptState)
    ensures
        p.wf(),
        p@ == edit_prompt_view(desc@, private),
{
    let f0 = PromptField::text("Description", desc);
    let f1 = PromptField::toggle("Private", private);
    proof {
        assert(f0.completions.deep_view() =~= Seq::<Seq<char>>::empty());
        assert(f1.completions.deep_view() =~= Seq::<Seq<char>>::empty());
    }
    let p = PromptState { kind: PromptKind::EditDescription, fields: vec![f0, f1], focused: 0 };
    proof {
        lemma_fields_view(p.fields@, edit_prompt_view(desc@, private).fields);
    }
    p
}

} // verus!

verus! {

/// Down and Up move the focus to the next and to the previous input, cyclically,
/// and change nothing else; so Down followed by Up, or Up followed by Down,
/// gives back the prompt as it was.
pub proof fn lemma_prompt_up_down(p: PromptView)
    requires
        p.focused < p.fields.len() <= usize::MAX,
    ensures
        prompt_after_key(p, Key::Up).focused == (if p.focused > 0 {
            p.focused - 1
        } else {
            p.fields.len() - 1
        }),
        prompt_after_key(p, Key::Down).focused == (if p.focused + 1 < p.fields.len() {
            p.focused + 1
        } else {
            0
        }),
        prompt_after_key(p, Key::Up).fields == p.fields,
        prompt_after_key(p, Key::Up).kind == p.kind,
        prompt_after_key(p, Key::Down).fields == p.fields,
        prompt_after_key(p, Key::Down).kind == p.kind,
        prompt_after_key(prompt_after_key(p, Key::Down), Key::Up) == p,
        prompt_after_key(prompt_after_key(p, Key::Up), Key::Down) == p,
{
    let n = p.fields.len() as int;
    if p.focused + 1 < n {
        assert((p.focused + 1) % n == p.focused + 1) by (nonlinear_arith)
            requires
                0 <= p.focused + 1 < n,
        ;
    } else {
        assert((p.focused + 1) % n == 0) by (nonlinear_arith)
            requires
                p.focused + 1 == n,
                n > 0,
        ;
    }
    if p.focused > 0 {
        let f = p.focused as int;
        assert(f % n == f) by (nonlinear_arith)
            requires
                0 <= f < n,
        ;
    } else {
        assert(n % n == 0) by (nonlinear_arith)
            requires
                n > 0,
        ;
    }
}

} // verus!

verus! {

/// Typing a character into a text or path input appends it to that input's value
/// and drops its completions; the focus and every other input stay as they were.
/// On a yes/no input, Space flips the answer (twice gives it back) and any other
/// character changes nothing.
pub proof fn lemma_prompt_typing(p: PromptView, c: char)
    requires
        p.focused < p.fields.len(),
    ensures
        ({
            let f = p.fields[p.focused as int];
            let q = prompt_after_key(p, Key::Char(c));
            &&& q.focused == p.focused
            &&& q.kind == p.kind
            &&& q.fields.len() == p.fields.len()
            &&& forall|i: int| 0 <= i < p.fields.len() && i != p.focused ==> q.fields[i] == p.fields[i]
            &&& !f.is_bool ==> {
                &&& q.fields[p.focused as int].value == f.value.push(c)
                &&& q.fields[p.focused as int].completions.len() == 0
                &&& q.fields[p.focused as int].completion_index is None
                &&& q.fields[p.focused as int].label == f.label
                &&& q.fields[p.focused as int].is_path == f.is_path
                &&& !q.fields[p.focused as int].is_bool
            }
            &&& f.is_bool && c == ' ' ==> {
                &&& q.fields[p.focused as int].bool_val == !f.bool_val
                &&& q.fields[p.focused as int].value == f.value
                &&& q.fields[p.focused as int].is_bool
                &&& prompt_after_key(q, Key::Char(' ')) == p
            }
            &&& f.is_bool && c != ' ' ==> q == p
        }),
{
    let f = p.fields[p.focused as int];
    let q = prompt_after_key(p, Key::Char(c));
    if f.is_bool && c == ' ' {
        let g = q.fields[p.focused as int];
        assert(g == FieldView { bool_val: !f.bool_val, ..f });
        assert(FieldView { bool_val: !g.bool_val, ..g } == f);
        assert(q.fields.update(p.focused as int, f) =~= p.fields);
    }
}

/// Backspace on a text input removes the last character of its value (nothing
/// when it is empty); on a path input it goes up a directory at a trailing slash;
/// on a yes/no input it changes nothing. The focus and the other inputs stay.
pub proof fn lemma_prompt_backspace(p: PromptView)
    requires
        p.focused < p.fields.len(),
    ensures
        ({
            let f = p.fields[p.focused as int];
            let q = prompt_after_key(p, Key::Backspace);
            &&& q.focused == p.focused
            &&& q.kind == p.kind
            &&& q.fields.len() == p.fields.len()
            &&& forall|i: int| 0 <= i < p.fields.len() && i != p.focused ==> q.fields[i] == p.fields[i]
            &&& f.is_bool ==> q == p
            &&& !f.is_bool && !f.is_path ==> q.fields[p.focused as int].value == (if f.value.len()
                > 0 {
                f.value.take(f.value.len() - 1)
            } else {
                f.value
            })
            &&& !f.is_bool && f.value.len() > 0 ==> q.fields[p.focused as int].value.len()
                < f.value.len() && q.fields[p.focused as int].value == f.value.take(
                q.fields[p.focused as int].value.len() as int,
            )
        }),
{
    let f = p.fields[p.focused as int];
    crate::paths::lemma_path_backspace_prefix(f.value);
    if f.value.len() > 0 {
        assert(f.value.drop_last() =~= f.value.take(f.value.len() - 1));
    }
}

/// Tab on a path input that shows completions moves to the next completion
/// (after the last, the first) and types it in; BackTab then comes back to the
/// completion before. On an input that is not a path, Tab and BackTab move the
/// focus like Down and Up.
pub proof fn lemma_prompt_tab(p: PromptView)
    requires
        p.focused < p.fields.len() <= usize::MAX,
        p.fields[p.focused as int].completion_index matches Some(i) ==> i
            < p.fields[p.focused as int].completions.len(),
        p.fields[p.focused as int].completions.len() <= usize::MAX,
    ensures
        ({
            let f = p.fields[p.focused as int];
            let q = prompt_after_key(p, Key::Tab);
            let g = q.fields[p.focused as int];
            &&& !f.is_path ==> q == prompt_after_key(p, Key::Down)
                && prompt_after_key(p, Key::BackTab) == prompt_after_key(p, Key::Up)
            &&& f.is_path && f.completion_index is Some ==> {
                let i = f.completion_index->0;
                let n = f.completions.len();
                &&& q.focused == p.focused
                &&& g.completion_index == Some(
                    (if i + 1 < n {
                        i + 1
                    } else {
                        0
                    }) as usize,
                )
                &&& g.value == f.completions[g.completion_index->0 as int]
                &&& g.completions == f.completions
                &&& prompt_after_key(q, Key::BackTab).fields[p.focused as int].completion_index
                    == Some(i)
                &&& prompt_after_key(q, Key::BackTab).fields[p.focused as int].value
                    == f.completions[i as int]
                &&& prompt_after_key(q, Key::BackTab).focused == p.focused
            }
        }),
{
    let f = p.fields[p.focused as int];
    if f.is_path && f.completion_index is Some {
        let i = f.completion_index->0 as int;
        let n = f.completions.len() as int;
        if i + 1 < n {
            assert((i + 1) % n == i + 1) by (nonlinear_arith)
                requires
                    0 <= i + 1 < n,
            ;
        } else {
            assert((i + 1) % n == 0) by (nonlinear_arith)
                requires
                    i + 1 == n,
                    n > 0,
            ;
        }
        let q = prompt_after_key(p, Key::Tab);
        assert(q.fields[p.focused as int].completions == f.completions);
    }
}

} // verus!

use vstd::prelude::*;
use vstd::string::StringExecFns;
use crate::order::{lemma_sort_by_key_map, sort_by_key, sort_by_keys};
use crate::text::{chars_of, copy_range, lowercase, string_of, to_lowercase};
use crate::token::{has_prefix, starts_with};

verus! {

broadcast use vstd::string::group_string_axioms;

/// `path` with a leading `~` replaced by the home directory.
pub open spec fn tilde_expanded(path: Seq<char>, home: Seq<char>) -> Seq<char> {
    if path.len() > 0 && path[0] == '~' {
        home + path.skip(1)
    } else {
        path
    }
}

/// Replaces a leading `~` of `path` by `home`.
pub fn expand_tilde(path: &str, home: &str) -> (r: String)
    ensures
        r@ == tilde_expanded(path@, home@),
{
    let v = chars_of(path);
    if v.len() > 0 && v[0] == '~' {
        let rest = string_of(&copy_range(&v, 1, v.len()));
        assert(rest@ =~= path@.skip(1));
        let mut r = home.to_string();
        r.append(rest.as_str());
        r
    } else {
        path.to_string()
    }
}

/// `s` ends with a slash.
pub open spec fn ends_with_slash(s: Seq<char>) -> bool {
    s.len() > 0 && s.last() == '/'
}

/// Whether the characters end with a slash.
pub fn ends_in_slash(v: &Vec<char>) -> (r: bool)
    ensures
        r == ends_with_slash(v@),
{
    v.len() > 0 && v[v.len() - 1] == '/'
}

/// Name for the parent directory that `std::path::Path::parent` gives for a path.
pub uninterp spec fn path_parent(p: Seq<char>) -> Option<Seq<char>>;

/// Name for the last component that `std::path::Path::file_name` gives for a path.
pub uninterp spec fn path_file_name(p: Seq<char>) -> Option<Seq<char>>;

/// `Path::parent` of a path written as text; Verus believes that the result is
/// `path_parent` of it.
#[verifier::external_body]
fn parent_of(p: &str) -> (r: Option<String>)
    ensures
        match path_parent(p@) {
            Some(t) => (r matches Some(s) && s@ == t),
            None => r is None,
        },
{
    match std::path::Path::new(p).parent() {
        Some(d) => Some(d.to_string_lossy().into_owned()),
        None => None,
    }
}

/// `Path::file_name` of a path written as text; Verus believes that the result
/// is `path_file_name` of it.
#[verifier::external_body]
fn file_name_of(p: &str) -> (r: Option<String>)
    ensures
        match path_file_name(p@) {
            Some(t) => (r matches Some(s) && s@ == t),
            None => r is None,
        },
{
    match std::path::Path::new(p).file_name() {
        Some(n) => Some(n.to_string_lossy().into_owned()),
        None => None,
    }
}

/// The directory whose entries complete `input`, and the start of the entry's
/// name typed so far: the whole (tilde-expanded) input and nothing when it ends
/// with a slash; else its parent (`/` when it has none) and its last component.
pub open spec fn completion_query_of(input: Seq<char>, home: Seq<char>) -> (Seq<char>, Seq<char>) {
    let e = tilde_expanded(input, home);
    if ends_with_slash(e) {
        (e, Seq::<char>::empty())
    } else {
        (
            match path_parent(e) {
                Some(d) => d,
                None => "/"@,
            },
            match path_file_name(e) {
                Some(n) => n,
                None => Seq::<char>::empty(),
            },
        )
    }
}

/// Where to look for the completions of a path being typed, and what the entry
/// names must start with.
pub fn completion_query(input: &str, home: &str) -> (r: (String, String))
    ensures
        (r.0@, r.1@) == completion_query_of(input@, home@),
{
    let expanded = expand_tilde(input, home);
    if ends_in_slash(&chars_of(expanded.as_str())) {
        (expanded, String::new())
    } else {
        let dir = match parent_of(expanded.as_str()) {
            Some(d) => d,
            None => "/".to_string(),
        };
        let prefix = match file_name_of(expanded.as_str()) {
            Some(n) => n,
            None => String::new(),
        };
        (dir, prefix)
    }
}

/// `pat` occurs in `s` at position `i`.
pub open spec fn occurs_at(s: Seq<char>, pat: Seq<char>, i: int) -> bool {
    0 <= i && i + pat.len() <= s.len() && s.subrange(i, i + pat.len()) == pat
}

/// `s` with the first occurrence of `pat` replaced by `rep` (what `replacen`
/// with a count of one gives).
pub open spec fn replace_first(s: Seq<char>, pat: Seq<char>, rep: Seq<char>) -> Seq<char> {
    if exists|i: int| occurs_at(s, pat, i) {
        let i = choose|i: int| occurs_at(s, pat, i) && forall|j: int| 0 <= j < i ==> !occurs_at(s, pat, j);
        s.take(i) + rep + s.skip(i + pat.len())
    } else {
        s
    }
}

/// Whether `pat` occurs in `s` at position `i`.
fn occurs_at_exec(s: &Vec<char>, pat: &Vec<char>, i: usize) -> (r: bool)
    requires
        i + pat.len() <= s.len(),
    ensures
        r == occurs_at(s@, pat@, i as int),
{
    let mut k: usize = 0;
    while k < pat.len()
        invariant
            k <= pat.len(),
            i + pat.len() <= s.len(),
            forall|m: int| 0 <= m < k ==> s@[i + m] == pat@[m],
        decreases pat.len() - k,
    {
        if s[i + k] != pat[k] {
            assert(s@.subrange(i as int, i + pat.len())[k as int] != pat@[k as int]);
            return false;
        }
        k = k + 1;
    }
    assert(s@.subrange(i as int, i + pat.len()) =~= pat@);
    true
}

/// `s` with the first occurrence of `pat` replaced by `rep`.
pub fn replace_first_exec(s: &str, pat: &str, rep: &str) -> (r: String)
    ensures
        r@ == replace_first(s@, pat@, rep@),
{
    let sv = chars_of(s);
    let pv = chars_of(pat);
    if pv.len() > sv.len() {
        assert(!exists|i: int| occurs_at(s@, pat@, i));
        return s.to_string();
    }
    let limit = sv.len() - pv.len();
    let mut i: usize = 0;
    loop
        invariant
            sv@ == s@,
            pv@ == pat@,
            limit == sv.len() - pv.len(),
            i <= limit,
            forall|j: int| 0 <= j < i ==> !occurs_at(s@, pat@, j),
        ensures
            forall|j: int| 0 <= j <= limit ==> !occurs_at(s@, pat@, j),
        decreases limit - i,
    {
        if occurs_at_exec(&sv, &pv, i) {
            let ghost chosen = choose|k: int|
                occurs_at(s@, pat@, k) && forall|j: int| 0 <= j < k ==> !occurs_at(s@, pat@, j);
            assert(occurs_at(s@, pat@, i as int));
            assert(chosen == i) by {
                if chosen < i {
                } else if chosen > i {
                }
            }
            let mut r = string_of(&copy_range(&sv, 0, i));
            r.append(rep);
            let tail = string_of(&copy_range(&sv, i + pv.len(), sv.len()));
            r.append(tail.as_str());
            assert(r@ =~= s@.take(i as int) + rep@ + s@.skip(i + pat@.len()));
            return r;
        }
        if i == limit {
            break;
        }
        i = i + 1;
    }
    assert forall|j: int| !occurs_at(s@, pat@, j) by {
        if 0 <= j <= limit {
        }
    }
    s.to_string()
}

/// The completion that an entry gives: its full path in the directory (with a
/// trailing slash for a directory), written with `~` again when the input was.
pub open spec fn completion_of(
    input: Seq<char>,
    home: Seq<char>,
    dir: Seq<char>,
    name: Seq<char>,
    is_dir: bool,
) -> Seq<char> {
    let joined = if ends_with_slash(dir) {
        dir + name
    } else {
        dir + "/"@ + name
    };
    let full = if is_dir {
        joined + "/"@
    } else {
        joined
    };
    if input.len() > 0 && input[0] == '~' {
        replace_first(full, home, "~"@)
    } else {
        full
    }
}

/// An entry of a directory: its name, and whether it is a directory.
#[derive(Debug, Clone, PartialEq, Eq)]
pub struct DirEntryInfo {
    pub name: String,
    pub is_dir: bool,
}

/// The entries whose name, in lower case, starts with the lower-cased prefix.
pub open spec fn matching_entries(entries: Seq<DirEntryInfo>, prefix: Seq<char>) -> Seq<DirEntryInfo> {
    entries.filter(entry_matches(prefix))
}

/// An entry matches when its name, in lower case, starts with the lower-cased prefix.
pub open spec fn entry_matches(prefix: Seq<char>) -> spec_fn(DirEntryInfo) -> bool {
    |e: DirEntryInfo| has_prefix(lowercase(e.name@), lowercase(prefix))
}

/// The completion of an entry.
pub open spec fn entry_completion(input: Seq<char>, home: Seq<char>, dir: Seq<char>) -> spec_fn(
    DirEntryInfo,
) -> Seq<char> {
    |e: DirEntryInfo| completion_of(input, home, dir, e.name@, e.is_dir)
}

/// The key by which completions are ordered: the text in lower case.
pub open spec fn lower_key() -> spec_fn(Seq<char>) -> Seq<char> {
    |s: Seq<char>| lowercase(s)
}

/// The completions of a path being typed, given the entries of the directory it
/// names: the completions of the matching entries, sorted by their lower-case
/// text (entries with the same one in directory order).
pub open spec fn completions_of(
    input: Seq<char>,
    home: Seq<char>,
    dir: Seq<char>,
    prefix: Seq<char>,
    entries: Seq<DirEntryInfo>,
) -> Seq<Seq<char>> {
    let m = matching_entries(entries, prefix);
    sort_by_key(
        m.map_values(entry_completion(input, home, dir)),
        lower_key(),
    )
}

/// The key of a completion held as a string.
pub open spec fn string_lower_key() -> spec_fn(String) -> Seq<char> {
    |s: String| lowercase(s@)
}

/// The view of a string.
pub open spec fn string_view() -> spec_fn(String) -> Seq<char> {
    |s: String| s@
}

/// The completions of a path being typed, given the entries of the directory that
/// `completion_query` named and the start of the name typed so far.
pub fn completion_matches(
    input: &str,
    home: &str,
    dir: &str,
    prefix: &str,
    entries: &Vec<DirEntryInfo>,
) -> (r: Vec<String>)
    ensures
        r.deep_view() == completions_of(input@, home@, dir@, prefix@, entries@),
{
    let prefix_lower = to_lowercase(prefix);
    let dir_v = chars_of(dir);
    let input_v = chars_of(input);
    let tilde = input_v.len() > 0 && input_v[0] == '~';
    let dir_slash = ends_in_slash(&dir_v);
    let ghost pred = entry_matches(prefix@);
    let ghost comp = entry_completion(input@, home@, dir@);
    let mut found: Vec<String> = Vec::new();
    let mut keys: Vec<Vec<char>> = Vec::new();
    let ghost mut picked: Seq<DirEntryInfo> = seq![];
    let mut i: usize = 0;
    while i < entries.len()
        invariant
            i <= entries.len(),
            prefix_lower@ == lowercase(prefix@),
            dir_v@ == dir@,
            tilde == (input@.len() > 0 && input@[0] == '~'),
            dir_slash == ends_with_slash(dir@),
            pred == entry_matches(prefix@),
            comp == entry_completion(input@, home@, dir@),
            picked == entries@.take(i as int).filter(pred),
            found@.map_values(string_view()) == picked.map_values(comp),
            keys.len() == found.len(),
            forall|k: int| 0 <= k < found.len() ==> (#[trigger] keys[k])@ == lowercase(found[k]@),
        decreases entries.len() - i,
    {
        let e = &entries[i];
        proof {
            reveal(Seq::filter);
            assert(entries@.take(i + 1).drop_last() =~= entries@.take(i as int));
            assert(entries@.take(i + 1).last() == *e);
        }
        let name_lower = to_lowercase(e.name.as_str());
        let lower_chars = chars_of(name_lower.as_str());
        let hit = starts_with(&lower_chars, prefix_lower.as_str());
        assert(lower_chars@ == lowercase(e.name@));
        assert(hit == has_prefix(lowercase(e.name@), lowercase(prefix@)));
        assert(hit == pred(*e));
        if hit {
            let mut joined = dir.to_string();
            if !dir_slash {
                joined.append("/");
            }
            joined.append(e.name.as_str());
            let ghost jv = if ends_with_slash(dir@) {
                dir@ + e.name@
            } else {
                dir@ + "/"@ + e.name@
            };
            assert(joined@ =~= jv);
            let mut whole = joined;
            if e.is_dir {
                whole.append("/");
            }
            let full = if tilde {
                replace_first_exec(whole.as_str(), home, "~")
            } else {
                whole
            };
            assert(whole@ == (if e.is_dir { jv + "/"@ } else { jv }));
            assert(full@ == completion_of(input@, home@, dir@, e.name@, e.is_dir));
            assert(full@ == comp(*e));
            let k = chars_of(to_lowercase(full.as_str()).as_str());
            let ghost before = found@;
            found.push(full);
            keys.push(k);
            proof {
                assert(found@.map_values(string_view()) =~= before.map_values(string_view()).push(
                    comp(*e),
                ));
                assert(picked.push(*e).map_values(comp) =~= picked.map_values(comp).push(comp(*e)));
                picked = picked.push(*e);
            }
        }
        i = i + 1;
    }
    proof {
        assert(entries@.take(entries.len() as int) =~= entries@);
    }
    let sorted = sort_by_keys(found, keys, Ghost(string_lower_key()));
    proof {
        lemma_sort_by_key_map(found@, string_view(), lower_key(), string_lower_key());
        assert(sorted.deep_view() =~= sorted@.map_values(string_view()));
    }
    sorted
}

} // verus!

verus! {

/// `v` without its trailing slashes.
pub open spec fn without_trailing_slashes(v: Seq<char>) -> Seq<char>
    decreases v.len(),
{
    if v.len() > 0 && v.last() == '/' {
        without_trailing_slashes(v.drop_last())
    } else {
        v
    }
}

/// The position of the last slash of `v`, if any.
pub open spec fn last_slash(v: Seq<char>) -> Option<int>
    decreases v.len(),
{
    if v.len() == 0 {
        None
    } else if v.last() == '/' {
        Some(v.len() - 1)
    } else {
        last_slash(v.drop_last())
    }
}

/// What Backspace leaves of a path being typed: at a trailing slash, the path of
/// the directory above (up to and with its last slash), else one character less.
pub open spec fn path_backspace(v: Seq<char>) -> Seq<char> {
    if v.len() > 1 && v.last() == '/' {
        let t = without_trailing_slashes(v);
        match last_slash(t) {
            Some(p) => t.take(p + 1),
            None => v.drop_last(),
        }
    } else {
        popped(v)
    }
}

proof fn lemma_without_trailing_slashes(v: Seq<char>)
    ensures
        without_trailing_slashes(v) == v.take(without_trailing_slashes(v).len() as int),
        without_trailing_slashes(v).len() <= v.len(),
        v.len() > 0 && v.last() == '/' ==> without_trailing_slashes(v).len() < v.len(),
    decreases v.len(),
{
    if v.len() > 0 && v.last() == '/' {
        lemma_without_trailing_slashes(v.drop_last());
        let t = without_trailing_slashes(v.drop_last());
        assert(v.drop_last().take(t.len() as int) =~= v.take(t.len() as int));
    } else {
        assert(v.take(v.len() as int) =~= v);
    }
}

proof fn lemma_last_slash(v: Seq<char>)
    ensures
        last_slash(v) matches Some(p) ==> 0 <= p < v.len() && v[p] == '/',
    decreases v.len(),
{
    if v.len() > 0 && v.last() != '/' {
        lemma_last_slash(v.drop_last());
    }
}

/// Backspace in a path only ever shortens it, to a beginning of what it was; at a
/// trailing slash what is left ends with a slash or is one character shorter.
pub proof fn lemma_path_backspace_prefix(v: Seq<char>)
    ensures
        path_backspace(v) == v.take(path_backspace(v).len() as int),
        v.len() > 0 ==> path_backspace(v).len() < v.len(),
        v.len() > 1 && v.last() == '/' ==> path_backspace(v).len() == v.len() - 1
            || path_backspace(v).last() == '/',
{
    if v.len() > 1 && v.last() == '/' {
        let t = without_trailing_slashes(v);
        lemma_without_trailing_slashes(v);
        lemma_last_slash(t);
        match last_slash(t) {
            Some(p) => {
                assert(t.take(p + 1) =~= v.take(p + 1));
            },
            None => {
                assert(v.drop_last() =~= v.take(v.len() - 1));
            },
        }
    } else if v.len() > 0 {
        assert(v.drop_last() =~= v.take(v.len() - 1));
    } else {
        assert(v.take(0) =~= v);
    }
}

/// `v` without its last character; the empty text stays empty (what `String::pop` leaves).
pub open spec fn popped(v: Seq<char>) -> Seq<char> {
    if v.len() > 0 {
        v.drop_last()
    } else {
        v
    }
}

/// `s` without its last character (the empty text stays empty).
pub fn drop_last_char(s: &str) -> (r: String)
    ensures
        r@ == popped(s@),
{
    let v = chars_of(s);
    if v.len() == 0 {
        return s.to_string();
    }
    let r = string_of(&copy_range(&v, 0, v.len() - 1));
    assert(r@ =~= s@.drop_last());
    r
}

/// Backspace in a path input.
pub fn backspace_path(s: &str) -> (r: String)
    ensures
        r@ == path_backspace(s@),
{
    let v = chars_of(s);
    if v.len() > 1 && v[v.len() - 1] == '/' {
        let mut end = v.len();
        assert(s@.take(end as int) =~= s@);
        while end > 0 && v[end - 1] == '/'
            invariant
                end <= v.len(),
                v@ == s@,
                without_trailing_slashes(s@) == without_trailing_slashes(s@.take(end as int)),
            decreases end,
        {
            assert(s@.take(end as int).drop_last() =~= s@.take(end - 1));
            end = end - 1;
        }
        let ghost t = s@.take(end as int);
        assert(without_trailing_slashes(s@) == t);
        let mut k = end;
        assert(t.take(k as int) =~= t);
        while k > 0 && v[k - 1] != '/'
            invariant
                k <= end <= v.len(),
                v@ == s@,
                t == s@.take(end as int),
                last_slash(t) == last_slash(t.take(k as int)),
            decreases k,
        {
            assert(t.take(k as int).drop_last() =~= t.take(k - 1));
            k = k - 1;
        }
        if k > 0 {
            assert(t.take(k as int).last() == '/');
            assert(last_slash(t) == Some(k - 1));
            let r = string_of(&copy_range(&v, 0, k));
            assert(r@ =~= t.take(k as int));
            assert(path_backspace(s@) == t.take(k as int));
            r
        } else {
            assert(t.take(0) =~= Seq::<char>::empty());
            assert(last_slash(t) is None);
            assert(path_backspace(s@) == s@.drop_last());
            drop_last_char(s)
        }
    } else {
        drop_last_char(s)
    }
}

} // verus!

verus! {

/// The completions are those of the matching entries, each once, in ascending
/// order of their lower-case text (one per matching entry).
pub proof fn lemma_completions_sorted(
    input: Seq<char>,
    home: Seq<char>,
    dir: Seq<char>,
    prefix: Seq<char>,
    entries: Seq<DirEntryInfo>,
)
    ensures
        crate::order::sorted_by_key(completions_of(input, home, dir, prefix, entries), lower_key()),
        completions_of(input, home, dir, prefix, entries).to_multiset() == matching_entries(
            entries,
            prefix,
        ).map_values(entry_completion(input, home, dir)).to_multiset(),
        forall|i: int, j: int|
            0 <= i < j < completions_of(input, home, dir, prefix, entries).len()
                ==> !crate::order::lex_lt(
                lowercase(#[trigger] completions_of(input, home, dir, prefix, entries)[j]),
                lowercase(#[trigger] completions_of(input, home, dir, prefix, entries)[i]),
            ),
        completions_of(input, home, dir, prefix, entries).len() == matching_entries(
            entries,
            prefix,
        ).len(),
{
    let m = matching_entries(entries, prefix).map_values(entry_completion(input, home, dir));
    crate::order::lemma_sort_by_key(m, lower_key());
    let c = completions_of(input, home, dir, prefix, entries);
    assert forall|i: int, j: int| 0 <= i < j < c.len() implies !crate::order::lex_lt(
        lowercase(#[trigger] c[j]),
        lowercase(#[trigger] c[i]),
    ) by {
        assert(lower_key()(c[j]) == lowercase(c[j]));
        assert(lower_key()(c[i]) == lowercase(c[i]));
    }
}

} // verus!

verus! {

/// Entries are matched against the typed prefix ignoring case: two prefixes with
/// the same lower-case text give the same completions.
pub proof fn lemma_completion_prefix_ignores_case(
    input: Seq<char>,
    home: Seq<char>,
    dir: Seq<char>,
    p1: Seq<char>,
    p2: Seq<char>,
    entries: Seq<DirEntryInfo>,
)
    requires
        lowercase(p1) == lowercase(p2),
    ensures
        completions_of(input, home, dir, p1, entries) == completions_of(input, home, dir, p2, entries),
{
    assert(entry_matches(p1) =~= entry_matches(p2));
}

/// An entry is offered exactly when it is an entry of the directory whose
/// lower-cased name starts with the lower-cased prefix; in particular an entry
/// whose name is the prefix itself is always offered.
pub proof fn lemma_completion_entries(entries: Seq<DirEntryInfo>, prefix: Seq<char>, i: int)
    requires
        0 <= i < entries.len(),
    ensures
        matching_entries(entries, prefix).contains(entries[i]) <==> has_prefix(
            lowercase(entries[i].name@),
            lowercase(prefix),
        ),
        entries[i].name@ == prefix ==> matching_entries(entries, prefix).contains(entries[i]),
{
    broadcast use vstd::seq_lib::group_filter_ensures;

    let e = entries[i];
    if has_prefix(lowercase(e.name@), lowercase(prefix)) {
        entries.lemma_filter_contains(entry_matches(prefix), i);
    } else if matching_entries(entries, prefix).contains(e) {
        let k = choose|k: int|
            0 <= k < matching_entries(entries, prefix).len() && matching_entries(entries, prefix)[k]
                == e;
        entries.lemma_filter_pred(entry_matches(prefix), k);
    }
    if e.name@ == prefix {
        assert(lowercase(e.name@).take(lowercase(prefix).len() as int) =~= lowercase(prefix));
        entries.lemma_filter_contains(entry_matches(prefix), i);
    }
}

} // verus!

verus! {

/// The completion of an entry typed without `~`: the directory, a slash unless the
/// directory ends with one, the entry's name, and a slash for a directory.
pub proof fn lemma_completion_text(
    input: Seq<char>,
    home: Seq<char>,
    dir: Seq<char>,
    name: Seq<char>,
    is_dir: bool,
)
    requires
        input.len() == 0 || input[0] != '~',
    ensures
        ({
            let c = completion_of(input, home, dir, name, is_dir);
            let sep: int = if dir.len() > 0 && dir.last() == '/' { 0 } else { 1 };
            let tail: int = if is_dir { 1 } else { 0 };
            &&& c.len() == dir.len() + sep + name.len() + tail
            &&& c.take(dir.len() as int) == dir
            &&& sep == 1 ==> c[dir.len() as int] == '/'
            &&& c.subrange(dir.len() + sep, dir.len() + sep + name.len()) == name
            &&& is_dir ==> c.last() == '/'
        }),
{
    let c = completion_of(input, home, dir, name, is_dir);
    let joined = if ends_with_slash(dir) {
        dir + name
    } else {
        dir + "/"@ + name
    };
    reveal_strlit("/");
    let sep: int = if dir.len() > 0 && dir.last() == '/' { 0 } else { 1 };
    assert(joined.len() == dir.len() + sep + name.len());
    assert(joined.take(dir.len() as int) =~= dir);
    assert(joined.subrange(dir.len() + sep, dir.len() + sep + name.len()) =~= name);
    if is_dir {
        assert(c =~= joined + "/"@);
        assert(c.take(dir.len() as int) =~= joined.take(dir.len() as int));
        assert(c.subrange(dir.len() + sep, dir.len() + sep + name.len()) =~= joined.subrange(
            dir.len() + sep,
            dir.len() + sep + name.len(),
        ));
    }
}

/// The completion of an entry typed with `~`, in a directory under the home
/// directory: `~` followed by the path after the home directory.
pub proof fn lemma_completion_tilde(
    input: Seq<char>,
    home: Seq<char>,
    dir: Seq<char>,
    name: Seq<char>,
    is_dir: bool,
)
    requires
        input.len() > 0,
        input[0] == '~',
        has_prefix(dir, home),
    ensures
        ({
            let plain = completion_of(seq![], home, dir, name, is_dir);
            completion_of(input, home, dir, name, is_dir) == seq!['~'] + plain.skip(home.len() as int)
        }),
{
    let plain = completion_of(seq![], home, dir, name, is_dir);
    lemma_completion_text(seq![], home, dir, name, is_dir);
    reveal_strlit("~");
    assert(plain.take(home.len() as int) =~= dir.take(home.len() as int));
    assert(occurs_at(plain, home, 0)) by {
        assert(plain.subrange(0, home.len() as int) =~= home);
    }
    let i = choose|i: int| occurs_at(plain, home, i) && forall|j: int| 0 <= j < i ==> !occurs_at(plain, home, j);
    assert(i == 0);
    assert(plain.take(0) + "~"@ + plain.skip(home.len() as int) =~= seq!['~'] + plain.skip(home.len() as int));
}

} // verus!

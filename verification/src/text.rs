use vstd::prelude::*;
use vstd::std_specs::iter::IteratorSpec;

verus! {

broadcast use vstd::string::group_string_axioms;

/// The Unicode `White_Space` property, which `char::is_whitespace`, `str::trim`
/// and `str::split_whitespace` use.
pub open spec fn is_white_space(c: char) -> bool {
    ||| '\u{9}' <= c <= '\u{d}'
    ||| c == ' '
    ||| c == '\u{85}'
    ||| c == '\u{a0}'
    ||| c == '\u{1680}'
    ||| '\u{2000}' <= c <= '\u{200a}'
    ||| c == '\u{2028}'
    ||| c == '\u{2029}'
    ||| c == '\u{202f}'
    ||| c == '\u{205f}'
    ||| c == '\u{3000}'
}

/// Whether `c` has the Unicode `White_Space` property.
pub fn is_whitespace(c: char) -> (r: bool)
    ensures
        r == is_white_space(c),
{
    ('\u{9}' <= c && c <= '\u{d}') || c == ' ' || c == '\u{85}' || c == '\u{a0}' || c == '\u{1680}'
        || ('\u{2000}' <= c && c <= '\u{200a}') || c == '\u{2028}' || c == '\u{2029}'
        || c == '\u{202f}' || c == '\u{205f}' || c == '\u{3000}'
}

/// The characters of `s`, in order.
pub fn chars_of(s: &str) -> (v: Vec<char>)
    ensures
        v@ == s@,
{
    let mut v: Vec<char> = Vec::new();
    let mut it = s.chars();
    loop
        invariant
            it.remaining() =~= s@.skip(v@.len() as int),
            v@ =~= s@.take(v@.len() as int),
            v@.len() <= s@.len(),
        ensures
            v@ =~= s@,
        decreases s@.len() - v@.len(),
    {
        match it.next() {
            Some(c) => {
                v.push(c);
            },
            None => {
                break ;
            },
        }
    }
    v
}

} // verus!

verus! {

/// `String::push`: appends one character to the string.
#[verifier::external_body]
pub(crate) fn push_char(s: &mut String, c: char)
    ensures
        final(s)@ == old(s)@.push(c),
{
    s.push(c);
}

/// A string holding the given characters.
pub fn string_of(v: &Vec<char>) -> (s: String)
    ensures
        s@ == v@,
{
    let mut s = String::new();
    let mut i: usize = 0;
    while i < v.len()
        invariant
            i <= v.len(),
            s@ =~= v@.take(i as int),
        decreases v.len() - i,
    {
        push_char(&mut s, v[i]);
        i = i + 1;
        assert(s@ =~= v@.take(i as int));
    }
    assert(v@.take(v.len() as int) =~= v@);
    s
}

/// A vector of characters is seen the same way shallowly and deeply.
pub proof fn lemma_chars_deep_view(v: &Vec<char>)
    ensures
        v.deep_view() == v@,
{
    assert(v.deep_view() =~= v@);
}

/// Left-to-right scan behind `words`: the words finished so far and the word
/// being read.
pub open spec fn scan_words(s: Seq<char>) -> (Seq<Seq<char>>, Seq<char>)
    decreases s.len(),
{
    if s.len() == 0 {
        (seq![], seq![])
    } else {
        let prev = scan_words(s.drop_last());
        let c = s.last();
        if is_white_space(c) {
            if prev.1.len() == 0 {
                prev
            } else {
                (prev.0.push(prev.1), seq![])
            }
        } else {
            (prev.0, prev.1.push(c))
        }
    }
}

/// The maximal runs of non-whitespace characters of `s`, in order
/// (what `str::split_whitespace` yields).
pub open spec fn words(s: Seq<char>) -> Seq<Seq<char>> {
    let st = scan_words(s);
    if st.1.len() == 0 {
        st.0
    } else {
        st.0.push(st.1)
    }
}

/// The words of `s`, as `str::split_whitespace` yields them.
pub fn split_words(s: &Vec<char>) -> (r: Vec<Vec<char>>)
    ensures
        r.deep_view() == words(s@),
{
    let mut done: Vec<Vec<char>> = Vec::new();
    let mut cur: Vec<char> = Vec::new();
    let mut i: usize = 0;
    while i < s.len()
        invariant
            i <= s.len(),
            (done.deep_view(), cur@) == scan_words(s@.take(i as int)),
        decreases s.len() - i,
    {
        let c = s[i];
        assert(s@.take(i + 1).drop_last() =~= s@.take(i as int));
        assert(s@.take(i + 1).last() == c);
        if is_whitespace(c) {
            if cur.len() > 0 {
                let ghost before = done.deep_view();
                let w = cur;
                proof {
                    lemma_chars_deep_view(&w);
                }
                done.push(w);
                cur = Vec::new();
                assert(done.deep_view() =~= before.push(w@));
                assert(done.deep_view() =~= scan_words(s@.take(i + 1)).0);
                assert(cur@ =~= scan_words(s@.take(i + 1)).1);
            }
        } else {
            cur.push(c);
        }
        i = i + 1;
    }
    assert(s@.take(s.len() as int) =~= s@);
    if cur.len() > 0 {
        let ghost before = done.deep_view();
        proof {
            lemma_chars_deep_view(&cur);
        }
        let ghost cv = cur@;
        done.push(cur);
        assert(done.deep_view() =~= before.push(cv));
        assert(done.deep_view() =~= words(s@));
    }
    done
}

} // verus!

verus! {

/// A word longer than the line width `w` is cut into pieces of exactly `w`
/// characters; the pieces before the last one, and the last one (of 1 to `w`
/// characters, when the word is not empty).
pub open spec fn hard_chunks(word: Seq<char>, w: nat) -> (Seq<Seq<char>>, Seq<char>)
    decreases word.len(),
{
    if w == 0 || word.len() <= w {
        (seq![], word)
    } else {
        let rest = hard_chunks(word.skip(w as int), w);
        (seq![word.take(w as int)] + rest.0, rest.1)
    }
}

/// One word added to the wrapped lines so far and the line being filled.
pub open spec fn wrap_step(state: (Seq<Seq<char>>, Seq<char>), word: Seq<char>, w: nat) -> (
    Seq<Seq<char>>,
    Seq<char>,
) {
    let lines = state.0;
    let cur = state.1;
    if word.len() > w {
        let flushed = if cur.len() > 0 {
            lines.push(cur)
        } else {
            lines
        };
        let ch = hard_chunks(word, w);
        (flushed + ch.0, ch.1)
    } else if cur.len() == 0 {
        (lines, word)
    } else if cur.len() + 1 + word.len() > w {
        (lines.push(cur), word)
    } else {
        (lines, cur + seq![' '] + word)
    }
}

/// Greedy wrapping of a sequence of words to lines of width `w`.
pub open spec fn wrap_words(ws: Seq<Seq<char>>, w: nat) -> (Seq<Seq<char>>, Seq<char>)
    decreases ws.len(),
{
    if ws.len() == 0 {
        (seq![], seq![])
    } else {
        wrap_step(wrap_words(ws.drop_last(), w), ws.last(), w)
    }
}

/// The width that wrapping uses: at least one column.
pub open spec fn effective_width(width: nat) -> nat {
    if width == 0 {
        1
    } else {
        width
    }
}

/// The lines that `wrap_text` gives for `text` at `width` columns.
pub open spec fn wrap_lines(text: Seq<char>, width: nat) -> Seq<Seq<char>> {
    let st = wrap_words(words(text), effective_width(width));
    let lines = if st.1.len() > 0 {
        st.0.push(st.1)
    } else {
        st.0
    };
    if lines.len() == 0 {
        seq![seq![]]
    } else {
        lines
    }
}

/// A copy of `v[lo..hi]`.
pub fn copy_range(v: &Vec<char>, lo: usize, hi: usize) -> (r: Vec<char>)
    requires
        lo <= hi <= v.len(),
    ensures
        r@ == v@.subrange(lo as int, hi as int),
{
    let mut r: Vec<char> = Vec::new();
    let mut i = lo;
    while i < hi
        invariant
            lo <= i <= hi <= v.len(),
            r@ =~= v@.subrange(lo as int, i as int),
        decreases hi - i,
    {
        r.push(v[i]);
        i = i + 1;
    }
    r
}

/// Appends the full pieces of an overlong word to `lines` and returns its last piece.
fn push_hard_chunks(lines: &mut Vec<Vec<char>>, word: &Vec<char>, w: usize) -> (last: Vec<char>)
    requires
        w >= 1,
    ensures
        final(lines).deep_view() == old(lines).deep_view() + hard_chunks(word@, w as nat).0,
        last@ == hard_chunks(word@, w as nat).1,
{
    let ghost start_view = lines.deep_view();
    let ghost mut acc: Seq<Seq<char>> = seq![];
    let mut start: usize = 0;
    assert(word@.skip(0) =~= word@);
    assert(acc + hard_chunks(word@, w as nat).0 =~= hard_chunks(word@, w as nat).0);
    assert(lines.deep_view() =~= start_view + acc);
    while word.len() - start > w
        invariant
            w >= 1,
            start <= word.len(),
            lines.deep_view() == start_view + acc,
            hard_chunks(word@, w as nat).0 == acc + hard_chunks(word@.skip(start as int), w as nat).0,
            hard_chunks(word@, w as nat).1 == hard_chunks(word@.skip(start as int), w as nat).1,
        decreases word.len() - start,
    {
        let piece = copy_range(word, start, start + w);
        let ghost rest = word@.skip(start as int);
        assert(rest.take(w as int) =~= piece@);
        assert(rest.skip(w as int) =~= word@.skip(start + w));
        let ghost before = lines.deep_view();
        proof {
            lemma_chars_deep_view(&piece);
        }
        let ghost pv = piece@;
        lines.push(piece);
        assert(lines.deep_view() =~= before.push(pv));
        proof {
            assert(hard_chunks(rest, w as nat).0 == seq![pv] + hard_chunks(
                word@.skip(start + w),
                w as nat,
            ).0);
            assert(acc + hard_chunks(rest, w as nat).0 =~= acc.push(pv) + hard_chunks(
                word@.skip(start + w),
                w as nat,
            ).0);
            acc = acc.push(pv);
            assert(start_view + acc =~= before.push(pv));
        }
        start = start + w;
    }
    let last = copy_range(word, start, word.len());
    assert(last@ =~= word@.skip(start as int));
    assert(hard_chunks(word@.skip(start as int), w as nat).0 == Seq::<Seq<char>>::empty());
    assert(acc + Seq::<Seq<char>>::empty() =~= acc);
    last
}

} // verus!

verus! {

/// The last piece of a cut word fits on a line.
pub proof fn lemma_hard_chunks_last_fits(word: Seq<char>, w: nat)
    requires
        w >= 1,
    ensures
        hard_chunks(word, w).1.len() <= w,
        word.len() > 0 ==> hard_chunks(word, w).1.len() > 0,
    decreases word.len(),
{
    if word.len() > w {
        lemma_hard_chunks_last_fits(word.skip(w as int), w);
    }
}

/// Appends a copy of `src` to `dst`.
fn extend_chars(dst: &mut Vec<char>, src: &Vec<char>)
    ensures
        final(dst)@ == old(dst)@ + src@,
{
    let mut i: usize = 0;
    while i < src.len()
        invariant
            i <= src.len(),
            dst@ =~= old(dst)@ + src@.take(i as int),
        decreases src.len() - i,
    {
        dst.push(src[i]);
        i = i + 1;
    }
    assert(src@.take(src.len() as int) =~= src@);
}

/// Wraps `text` into lines of at most `width` characters (at least one), breaking
/// between words and cutting words longer than a line into pieces. The text
/// always gives at least one line, which is empty when the text has no words.
pub fn wrap_text(text: &str, width: usize) -> (lines: Vec<String>)
    ensures
        lines.deep_view() == wrap_lines(text@, width as nat),
{
    let w: usize = if width == 0 {
        1
    } else {
        width
    };
    let chars = chars_of(text);
    let ws = split_words(&chars);
    let ghost wsv = ws.deep_view();
    let mut lines: Vec<Vec<char>> = Vec::new();
    let mut cur: Vec<char> = Vec::new();
    let mut k: usize = 0;
    assert(wsv.take(0) =~= Seq::<Seq<char>>::empty());
    assert(lines.deep_view() =~= Seq::<Seq<char>>::empty());
    while k < ws.len()
        invariant
            w >= 1,
            w == effective_width(width as nat),
            wsv == ws.deep_view(),
            k <= ws.len(),
            (lines.deep_view(), cur@) == wrap_words(wsv.take(k as int), w as nat),
            cur@.len() <= w,
        decreases ws.len() - k,
    {
        let word = &ws[k];
        proof {
            lemma_chars_deep_view(word);
            assert(wsv.take(k + 1).drop_last() =~= wsv.take(k as int));
            assert(wsv.take(k + 1).last() == word@);
        }
        let ghost prev_lines = lines.deep_view();
        let ghost prev_cur = cur@;
        if word.len() > w {
            if cur.len() > 0 {
                proof {
                    lemma_chars_deep_view(&cur);
                }
                let flushed = cur;
                lines.push(flushed);
                assert(lines.deep_view() =~= prev_lines.push(prev_cur));
            }
            let ghost flushed_lines = lines.deep_view();
            cur = push_hard_chunks(&mut lines, word, w);
            proof {
                lemma_hard_chunks_last_fits(word@, w as nat);
            }
        } else if cur.len() == 0 {
            cur = copy_range(word, 0, word.len());
            assert(cur@ =~= word@);
        } else if cur.len() == w || word.len() > w - 1 - cur.len() {
            proof {
                lemma_chars_deep_view(&cur);
            }
            let flushed = cur;
            lines.push(flushed);
            assert(lines.deep_view() =~= prev_lines.push(prev_cur));
            cur = copy_range(word, 0, word.len());
            assert(cur@ =~= word@);
        } else {
            cur.push(' ');
            extend_chars(&mut cur, word);
            assert(cur@ =~= prev_cur + seq![' '] + word@);
        }
        k = k + 1;
    }
    assert(wsv.take(ws.len() as int) =~= wsv);
    if cur.len() > 0 {
        let ghost before = lines.deep_view();
        proof {
            lemma_chars_deep_view(&cur);
        }
        let ghost cv = cur@;
        lines.push(cur);
        assert(lines.deep_view() =~= before.push(cv));
    }
    if lines.len() == 0 {
        let e: Vec<char> = Vec::new();
        proof {
            lemma_chars_deep_view(&e);
        }
        lines.push(e);
        assert(lines.deep_view() =~= seq![Seq::<char>::empty()]);
    }
    let mut out: Vec<String> = Vec::new();
    let mut i: usize = 0;
    while i < lines.len()
        invariant
            i <= lines.len(),
            out.deep_view() =~= lines.deep_view().take(i as int),
        decreases lines.len() - i,
    {
        let s = string_of(&lines[i]);
        proof {
            lemma_chars_deep_view(&lines[i as int]);
        }
        let ghost before = out.deep_view();
        out.push(s);
        assert(out.deep_view() =~= before.push(lines.deep_view()[i as int]));
        i = i + 1;
    }
    assert(lines.deep_view().take(lines.len() as int) =~= lines.deep_view());
    out
}

} // verus!

verus! {

/// The characters kept by `visible`: those that are not whitespace.
pub open spec fn non_white() -> spec_fn(char) -> bool {
    |c: char| !is_white_space(c)
}

/// The characters kept by `without_spaces`: all but the plain space.
pub open spec fn non_space() -> spec_fn(char) -> bool {
    |c: char| c != ' '
}

/// The text with every whitespace character removed.
pub open spec fn visible(s: Seq<char>) -> Seq<char> {
    s.filter(non_white())
}

/// The text with every plain space removed.
pub open spec fn without_spaces(s: Seq<char>) -> Seq<char> {
    s.filter(non_space())
}

/// No character of `s` is whitespace.
pub open spec fn has_no_white(s: Seq<char>) -> bool {
    forall|j: int| 0 <= j < s.len() ==> !is_white_space(#[trigger] s[j])
}

/// Every word is non-empty and holds no whitespace.
pub open spec fn proper_words(ws: Seq<Seq<char>>) -> bool {
    forall|i: int| 0 <= i < ws.len() ==> (#[trigger] ws[i]).len() > 0 && has_no_white(ws[i])
}

proof fn lemma_filter_all<A>(s: Seq<A>, p: spec_fn(A) -> bool)
    requires
        forall|j: int| 0 <= j < s.len() ==> p(#[trigger] s[j]),
    ensures
        s.filter(p) == s,
    decreases s.len(),
{
    reveal(Seq::filter);
    if s.len() > 0 {
        lemma_filter_all(s.drop_last(), p);
        assert(s.drop_last().push(s.last()) =~= s);
    }
}

proof fn lemma_filter_none<A>(s: Seq<A>, p: spec_fn(A) -> bool)
    requires
        forall|j: int| 0 <= j < s.len() ==> !p(#[trigger] s[j]),
    ensures
        s.filter(p) == Seq::<A>::empty(),
    decreases s.len(),
{
    reveal(Seq::filter);
    if s.len() > 0 {
        lemma_filter_none(s.drop_last(), p);
    }
}

proof fn lemma_scan_words(s: Seq<char>)
    ensures
        scan_words(s).0.flatten() + scan_words(s).1 == visible(s),
        proper_words(scan_words(s).0),
        has_no_white(scan_words(s).1),
    decreases s.len(),
{
    reveal(Seq::filter);
    if s.len() > 0 {
        let prev = scan_words(s.drop_last());
        lemma_scan_words(s.drop_last());
        let c = s.last();
        if is_white_space(c) {
            if prev.1.len() > 0 {
                prev.0.lemma_flatten_push(prev.1);
                assert(prev.0.push(prev.1).flatten() + Seq::<char>::empty() =~= prev.0.flatten()
                    + prev.1);
            }
        } else {
            assert(prev.0.flatten() + prev.1.push(c) =~= (prev.0.flatten() + prev.1).push(c));
        }
    }
}

/// The words of a text are non-empty, hold no whitespace, and together are
/// exactly its non-whitespace characters, in order.
pub proof fn lemma_words(s: Seq<char>)
    ensures
        proper_words(words(s)),
        words(s).flatten() == visible(s),
{
    lemma_scan_words(s);
    let st = scan_words(s);
    if st.1.len() > 0 {
        st.0.lemma_flatten_push(st.1);
    } else {
        assert(st.0.flatten() + st.1 =~= st.0.flatten());
    }
}

proof fn lemma_hard_chunks(word: Seq<char>, w: nat)
    requires
        w >= 1,
    ensures
        hard_chunks(word, w).0.flatten() + hard_chunks(word, w).1 == word,
        forall|i: int|
            0 <= i < hard_chunks(word, w).0.len() ==> (#[trigger] hard_chunks(word, w).0[i]).len()
                == w,
    decreases word.len(),
{
    if word.len() > w {
        let rest = hard_chunks(word.skip(w as int), w);
        lemma_hard_chunks(word.skip(w as int), w);
        let first = word.take(w as int);
        assert((seq![first] + rest.0).drop_first() =~= rest.0);
        assert((seq![first] + rest.0).flatten() == first + rest.0.flatten());
        assert(first + rest.0.flatten() + rest.1 =~= first + (rest.0.flatten() + rest.1));
        assert(first + word.skip(w as int) =~= word);
        assert forall|i: int| 0 <= i < (seq![first] + rest.0).len() implies (#[trigger] (seq![
            first,
        ] + rest.0)[i]).len() == w by {
            if i > 0 {
                assert((seq![first] + rest.0)[i] == rest.0[i - 1]);
            }
        }
    } else {
        assert(Seq::<Seq<char>>::empty().flatten() + word =~= word);
    }
}

/// What every state of the greedy wrapping keeps.
pub open spec fn wrap_state_ok(st: (Seq<Seq<char>>, Seq<char>), w: nat) -> bool {
    &&& forall|i: int| 0 <= i < st.0.len() ==> 0 < (#[trigger] st.0[i]).len() <= w
    &&& st.1.len() <= w
}

proof fn lemma_without_spaces_plain(s: Seq<char>)
    requires
        has_no_white(s),
    ensures
        without_spaces(s) == s,
{
    assert forall|j: int| 0 <= j < s.len() implies (non_space())(#[trigger] s[j]) by {
        assert(!is_white_space(s[j]));
    }
    lemma_filter_all(s, non_space());
}

proof fn lemma_space_gone()
    ensures
        without_spaces(seq![' ']) == Seq::<char>::empty(),
{
    reveal(Seq::filter);
    let sp = seq![' '];
    assert(sp.drop_last() =~= Seq::<char>::empty());
    assert(Seq::<char>::empty().filter(non_space()) == Seq::<char>::empty());
    assert(!(non_space())(sp.last()));
    assert(sp.filter(non_space()) == sp.drop_last().filter(non_space()));
}

proof fn lemma_without_spaces_add(a: Seq<char>, b: Seq<char>)
    ensures
        without_spaces(a + b) == without_spaces(a) + without_spaces(b),
{
    Seq::filter_distributes_over_add(a, b, non_space());
}

/// The line being filled, once closed, and the lines before it.
pub open spec fn closed_lines(p: (Seq<Seq<char>>, Seq<char>)) -> Seq<Seq<char>> {
    if p.1.len() > 0 {
        p.0.push(p.1)
    } else {
        p.0
    }
}

proof fn lemma_closed_lines(p: (Seq<Seq<char>>, Seq<char>), w: nat)
    requires
        wrap_state_ok(p, w),
    ensures
        closed_lines(p).flatten() == p.0.flatten() + p.1,
        forall|i: int| 0 <= i < closed_lines(p).len() ==> 0 < (#[trigger] closed_lines(p)[i]).len() <= w,
{
    if p.1.len() > 0 {
        p.0.lemma_flatten_push(p.1);
        assert forall|i: int| 0 <= i < closed_lines(p).len() implies 0 < (
        #[trigger] closed_lines(p)[i]).len() <= w by {
            if i < p.0.len() {
                assert(closed_lines(p)[i] == p.0[i]);
            }
        }
    } else {
        assert(p.0.flatten() + p.1 =~= p.0.flatten());
    }
}

proof fn lemma_wrap_step_long(p: (Seq<Seq<char>>, Seq<char>), word: Seq<char>, w: nat)
    requires
        w >= 1,
        wrap_state_ok(p, w),
        word.len() > w,
    ensures
        wrap_state_ok(wrap_step(p, word, w), w),
        wrap_step(p, word, w).0.flatten() + wrap_step(p, word, w).1 == (p.0.flatten() + p.1) + word,
        wrap_step(p, word, w).1.len() > 0,
{
    let flushed = closed_lines(p);
    let ch = hard_chunks(word, w);
    lemma_closed_lines(p, w);
    lemma_hard_chunks(word, w);
    lemma_hard_chunks_last_fits(word, w);
    vstd::seq_lib::lemma_flatten_concat(flushed, ch.0);
    assert((flushed + ch.0).flatten() + ch.1 =~= (p.0.flatten() + p.1) + (ch.0.flatten() + ch.1));
    assert forall|i: int| 0 <= i < (flushed + ch.0).len() implies 0 < (#[trigger] (flushed
        + ch.0)[i]).len() <= w by {
        if i < flushed.len() {
            assert((flushed + ch.0)[i] == flushed[i]);
        } else {
            assert((flushed + ch.0)[i] == ch.0[i - flushed.len()]);
        }
    }
}

proof fn lemma_wrap_step(p: (Seq<Seq<char>>, Seq<char>), word: Seq<char>, w: nat, f: Seq<char>)
    requires
        w >= 1,
        wrap_state_ok(p, w),
        without_spaces(p.0.flatten() + p.1) == f,
        word.len() > 0,
        has_no_white(word),
    ensures
        wrap_state_ok(wrap_step(p, word, w), w),
        without_spaces(wrap_step(p, word, w).0.flatten() + wrap_step(p, word, w).1) == f + word,
        wrap_step(p, word, w).1.len() > 0,
{
    let r = wrap_step(p, word, w);
    lemma_without_spaces_plain(word);
    if word.len() > w {
        lemma_wrap_step_long(p, word, w);
        lemma_without_spaces_add(p.0.flatten() + p.1, word);
    } else if p.1.len() == 0 {
        assert(p.0.flatten() + p.1 =~= p.0.flatten());
        lemma_without_spaces_add(p.0.flatten(), word);
    } else if p.1.len() + 1 + word.len() > w {
        lemma_closed_lines(p, w);
        lemma_without_spaces_add(p.0.flatten() + p.1, word);
    } else {
        let sp = seq![' '];
        assert(p.0.flatten() + (p.1 + sp + word) =~= ((p.0.flatten() + p.1) + sp) + word);
        lemma_without_spaces_add((p.0.flatten() + p.1) + sp, word);
        lemma_without_spaces_add(p.0.flatten() + p.1, sp);
        lemma_space_gone();
        assert(f + Seq::<char>::empty() =~= f);
    }
}

proof fn lemma_wrap_words(ws: Seq<Seq<char>>, w: nat)
    requires
        w >= 1,
        proper_words(ws),
    ensures
        wrap_state_ok(wrap_words(ws, w), w),
        without_spaces(wrap_words(ws, w).0.flatten() + wrap_words(ws, w).1) == ws.flatten(),
        ws.len() > 0 <==> wrap_words(ws, w).1.len() > 0,
    decreases ws.len(),
{
    if ws.len() > 0 {
        let init = ws.drop_last();
        let word = ws.last();
        assert(proper_words(init)) by {
            assert forall|i: int| 0 <= i < init.len() implies (#[trigger] init[i]).len() > 0
                && has_no_white(init[i]) by {
                assert(init[i] == ws[i]);
            }
        }
        lemma_wrap_words(init, w);
        assert(ws =~= init.push(word));
        init.lemma_flatten_push(word);
        assert(word == ws[ws.len() - 1]);
        lemma_wrap_step(wrap_words(init, w), word, w, init.flatten());
    } else {
        assert(without_spaces(Seq::<Seq<char>>::empty().flatten() + Seq::<char>::empty())
            =~= Seq::<char>::empty()) by {
            reveal(Seq::filter);
        }
    }
}

/// Wrapping never loses or reorders the visible characters of the text, never
/// gives a line wider than the width, and gives an empty line only for a text
/// without words, as its only line.
pub proof fn lemma_wrap_lines(text: Seq<char>, width: nat)
    ensures
        wrap_lines(text, width).len() >= 1,
        forall|i: int|
            0 <= i < wrap_lines(text, width).len() ==> (#[trigger] wrap_lines(text, width)[i]).len()
                <= effective_width(width),
        words(text).len() == 0 ==> wrap_lines(text, width) == seq![Seq::<char>::empty()],
        words(text).len() > 0 ==> forall|i: int|
            0 <= i < wrap_lines(text, width).len() ==> (#[trigger] wrap_lines(text, width)[i]).len()
                > 0,
        without_spaces(wrap_lines(text, width).flatten()) == visible(text),
{
    let w = effective_width(width);
    let ws = words(text);
    lemma_words(text);
    lemma_wrap_words(ws, w);
    let st = wrap_words(ws, w);
    let lines = if st.1.len() > 0 {
        st.0.push(st.1)
    } else {
        st.0
    };
    if st.1.len() > 0 {
        st.0.lemma_flatten_push(st.1);
        assert forall|i: int| 0 <= i < lines.len() implies 0 < (#[trigger] lines[i]).len() <= w by {
            if i < st.0.len() {
                assert(lines[i] == st.0[i]);
            }
        }
    } else {
        assert(st.0.flatten() + st.1 =~= st.0.flatten());
    }
    if lines.len() == 0 {
        let e = seq![Seq::<char>::empty()];
        assert(e.flatten() =~= Seq::<char>::empty()) by {
            assert(e.drop_first() =~= Seq::<Seq<char>>::empty());
        }
        assert(without_spaces(Seq::<char>::empty()) =~= Seq::<char>::empty()) by {
            reveal(Seq::filter);
        }
        assert(st.0 =~= Seq::<Seq<char>>::empty());
        assert(Seq::<Seq<char>>::empty().flatten() =~= Seq::<char>::empty());
    }
}

} // verus!

verus! {

/// `s` without its leading whitespace.
pub open spec fn trim_start(s: Seq<char>) -> Seq<char>
    decreases s.len(),
{
    if s.len() > 0 && is_white_space(s[0]) {
        trim_start(s.drop_first())
    } else {
        s
    }
}

/// `s` without its trailing whitespace.
pub open spec fn trim_end(s: Seq<char>) -> Seq<char>
    decreases s.len(),
{
    if s.len() > 0 && is_white_space(s.last()) {
        trim_end(s.drop_last())
    } else {
        s
    }
}

/// `s` without leading and trailing whitespace (what `str::trim` gives).
pub open spec fn trimmed(s: Seq<char>) -> Seq<char> {
    trim_end(trim_start(s))
}

/// A copy of `s` without leading and trailing whitespace.
pub fn trim(s: &str) -> (r: String)
    ensures
        r@ == trimmed(s@),
{
    let v = chars_of(s);
    let mut lo: usize = 0;
    assert(s@.skip(0) =~= s@);
    while lo < v.len() && is_whitespace(v[lo])
        invariant
            lo <= v.len(),
            v@ == s@,
            trim_start(s@) == trim_start(s@.skip(lo as int)),
        decreases v.len() - lo,
    {
        assert(s@.skip(lo as int).drop_first() =~= s@.skip(lo + 1));
        lo = lo + 1;
    }
    let ghost t = s@.skip(lo as int);
    assert(trim_start(s@) == t);
    let mut hi: usize = v.len();
    assert(t.take((hi - lo) as int) =~= t);
    while hi > lo && is_whitespace(v[hi - 1])
        invariant
            lo <= hi <= v.len(),
            v@ == s@,
            t == s@.skip(lo as int),
            trim_end(t) == trim_end(t.take((hi - lo) as int)),
        decreases hi,
    {
        assert(t.take((hi - lo) as int).drop_last() =~= t.take(hi - 1 - lo));
        hi = hi - 1;
    }
    let out = copy_range(&v, lo, hi);
    assert(out@ =~= t.take((hi - lo) as int));
    string_of(&out)
}

/// Name for what `str::to_lowercase` gives for a string (Unicode lower-case mapping).
pub uninterp spec fn lowercase(s: Seq<char>) -> Seq<char>;

/// `str::to_lowercase`; Verus believes that the result is `lowercase` of the argument.
#[verifier::external_body]
pub(crate) fn to_lowercase(s: &str) -> (r: String)
    ensures
        r@ == lowercase(s@),
{
    s.to_lowercase()
}

} // verus!

verus! {

/// Whether two texts are the same.
pub fn same_text(a: &str, b: &str) -> (r: bool)
    ensures
        r == (a@ == b@),
{
    let av = chars_of(a);
    let bv = chars_of(b);
    if av.len() != bv.len() {
        return false;
    }
    let mut i: usize = 0;
    while i < av.len()
        invariant
            av@ == a@,
            bv@ == b@,
            av.len() == bv.len(),
            i <= av.len(),
            forall|k: int| 0 <= k < i ==> av@[k] == bv@[k],
        decreases av.len() - i,
    {
        if av[i] != bv[i] {
            return false;
        }
        i = i + 1;
    }
    assert(av@ =~= bv@);
    true
}

} // verus!

verus! {

proof fn lemma_trim_start(s: Seq<char>)
    ensures
        trim_start(s).len() == 0 || !is_white_space(trim_start(s)[0]),
        trim_start(trim_start(s)) == trim_start(s),
        trim_end(s).len() == 0 || !is_white_space(trim_end(s).last()),
        trim_end(trim_end(s)) == trim_end(s),
    decreases s.len(),
{
    if s.len() > 0 {
        lemma_trim_start(s.drop_first());
        lemma_trim_start(s.drop_last());
    }
}

proof fn lemma_trim_end_keeps_start(s: Seq<char>)
    requires
        s.len() == 0 || !is_white_space(s[0]),
    ensures
        trim_end(s).len() == 0 || !is_white_space(trim_end(s)[0]),
        trim_start(trim_end(s)) == trim_end(s),
    decreases s.len(),
{
    if s.len() > 0 && is_white_space(s.last()) {
        if s.len() > 1 {
            assert(s.drop_last()[0] == s[0]);
        }
        lemma_trim_end_keeps_start(s.drop_last());
    }
}

/// A trimmed text neither begins nor ends with whitespace, and trimming it again
/// changes nothing.
pub proof fn lemma_trimmed(s: Seq<char>)
    ensures
        trimmed(s).len() == 0 || (!is_white_space(trimmed(s)[0]) && !is_white_space(
            trimmed(s).last(),
        )),
        trimmed(trimmed(s)) == trimmed(s),
{
    lemma_trim_start(s);
    let t = trim_start(s);
    lemma_trim_end_keeps_start(t);
    lemma_trim_start(t);
    lemma_trim_start(trim_end(t));
}

} // verus!

verus! {

/// Lines put back into one text, one space between two lines (what `join(" ")`
/// gives).
pub open spec fn joined(ls: Seq<Seq<char>>) -> Seq<char>
    decreases ls.len(),
{
    if ls.len() == 0 {
        Seq::<char>::empty()
    } else if ls.len() == 1 {
        ls[0]
    } else {
        joined(ls.drop_last()) + seq![' '] + ls.last()
    }
}

proof fn lemma_joined_push(ls: Seq<Seq<char>>, x: Seq<char>)
    ensures
        joined(ls.push(x)) == if ls.len() == 0 {
            x
        } else {
            joined(ls) + seq![' '] + x
        },
{
    assert(ls.push(x).drop_last() =~= ls);
    if ls.len() == 0 {
        assert(ls.push(x)[0] == x);
    }
}

proof fn lemma_scan_ends_white(x: Seq<char>)
    requires
        x.len() == 0 || is_white_space(x.last()),
    ensures
        scan_words(x).1.len() == 0,
        scan_words(x).0 == words(x),
{
}

proof fn lemma_scan_split(x: Seq<char>, y: Seq<char>)
    requires
        x.len() == 0 || is_white_space(x.last()),
    ensures
        scan_words(x + y) == (words(x) + scan_words(y).0, scan_words(y).1),
    decreases y.len(),
{
    lemma_scan_ends_white(x);
    if y.len() == 0 {
        assert(x + y =~= x);
        assert(words(x) + Seq::<Seq<char>>::empty() =~= words(x));
    } else {
        let yd = y.drop_last();
        lemma_scan_split(x, yd);
        assert((x + y).drop_last() =~= x + yd);
        assert((x + y).last() == y.last());
        let prev = scan_words(yd);
        if !is_white_space(y.last()) {
        } else if prev.1.len() == 0 {
        } else {
            assert((words(x) + prev.0).push(prev.1) =~= words(x) + prev.0.push(prev.1));
        }
    }
}

proof fn lemma_words_space_join(a: Seq<char>, b: Seq<char>)
    ensures
        words(a + seq![' '] + b) == words(a) + words(b),
{
    let x = a + seq![' '];
    assert(x.drop_last() =~= a);
    assert(is_white_space(x.last()));
    lemma_scan_split(x, b);
    let sb = scan_words(b);
    if sb.1.len() > 0 {
        assert((words(x) + sb.0).push(sb.1) =~= words(x) + sb.0.push(sb.1));
    }
}

proof fn lemma_scan_plain(p: Seq<char>)
    requires
        has_no_white(p),
    ensures
        scan_words(p) == (Seq::<Seq<char>>::empty(), p),
    decreases p.len(),
{
    if p.len() > 0 {
        lemma_scan_plain(p.drop_last());
        assert(p.drop_last().push(p.last()) =~= p);
    }
}

proof fn lemma_words_plain(p: Seq<char>)
    requires
        p.len() > 0,
        has_no_white(p),
    ensures
        words(p) == seq![p],
{
    lemma_scan_plain(p);
}

} // verus!

verus! {

/// Every piece is non-empty, holds no whitespace and fits on a line of `w`.
pub open spec fn fitting_words(ps: Seq<Seq<char>>, w: nat) -> bool {
    forall|i: int|
        0 <= i < ps.len() ==> (#[trigger] ps[i]).len() > 0 && ps[i].len() <= w && has_no_white(ps[i])
}

proof fn lemma_step_text(st: (Seq<Seq<char>>, Seq<char>), p: Seq<char>, w: nat)
    requires
        0 < p.len() <= w,
        has_no_white(p),
    ensures
        words(joined(closed_lines(wrap_step(st, p, w)))) == words(joined(closed_lines(st)))
            + seq![p],
{
    let lines = st.0;
    let cur = st.1;
    let sp = seq![' '];
    lemma_words_plain(p);
    if cur.len() == 0 {
        lemma_joined_push(lines, p);
        if lines.len() > 0 {
            lemma_words_space_join(joined(lines), p);
        } else {
            assert(words(Seq::<char>::empty()) =~= Seq::<Seq<char>>::empty());
            assert(Seq::<Seq<char>>::empty() + seq![p] =~= seq![p]);
        }
    } else if cur.len() + 1 + p.len() > w {
        lemma_joined_push(lines.push(cur), p);
        lemma_words_space_join(joined(lines.push(cur)), p);
    } else {
        let ext = cur + sp + p;
        lemma_joined_push(lines, ext);
        lemma_joined_push(lines, cur);
        if lines.len() > 0 {
            assert(joined(lines) + sp + ext =~= (joined(lines) + sp + cur) + sp + p);
        }
        lemma_words_space_join(joined(lines.push(cur)), p);
    }
}

proof fn lemma_wrap_words_text(ps: Seq<Seq<char>>, w: nat)
    requires
        fitting_words(ps, w),
    ensures
        words(joined(closed_lines(wrap_words(ps, w)))) == ps,
    decreases ps.len(),
{
    if ps.len() == 0 {
        assert(words(Seq::<char>::empty()) =~= Seq::<Seq<char>>::empty());
    } else {
        let d = ps.drop_last();
        assert(fitting_words(d, w)) by {
            assert forall|i: int| 0 <= i < d.len() implies (#[trigger] d[i]).len() > 0 && d[i].len()
                <= w && has_no_white(d[i]) by {
                assert(d[i] == ps[i]);
            }
        }
        lemma_wrap_words_text(d, w);
        assert(ps[ps.len() - 1] == ps.last());
        lemma_step_text(wrap_words(d, w), ps.last(), w);
        assert(d.push(ps.last()) =~= ps);
    }
}

} // verus!

verus! {

/// The greedy wrapping of `ws` continued from the state `s`.
pub open spec fn wrap_from(s: (Seq<Seq<char>>, Seq<char>), ws: Seq<Seq<char>>, w: nat) -> (
    Seq<Seq<char>>,
    Seq<char>,
)
    decreases ws.len(),
{
    if ws.len() == 0 {
        s
    } else {
        wrap_step(wrap_from(s, ws.drop_last(), w), ws.last(), w)
    }
}

/// What a word becomes on the lines: itself when it fits, else its pieces.
pub open spec fn word_pieces(word: Seq<char>, w: nat) -> Seq<Seq<char>> {
    if word.len() > w {
        hard_chunks(word, w).0.push(hard_chunks(word, w).1)
    } else {
        seq![word]
    }
}

/// The pieces of all the words, in order.
pub open spec fn pieces(ws: Seq<Seq<char>>, w: nat) -> Seq<Seq<char>>
    decreases ws.len(),
{
    if ws.len() == 0 {
        Seq::<Seq<char>>::empty()
    } else {
        pieces(ws.drop_last(), w) + word_pieces(ws.last(), w)
    }
}

proof fn lemma_wrap_from_start(ws: Seq<Seq<char>>, w: nat)
    ensures
        wrap_from((Seq::<Seq<char>>::empty(), Seq::<char>::empty()), ws, w) == wrap_words(ws, w),
    decreases ws.len(),
{
    if ws.len() > 0 {
        lemma_wrap_from_start(ws.drop_last(), w);
    }
}

proof fn lemma_wrap_from_concat(
    s: (Seq<Seq<char>>, Seq<char>),
    a: Seq<Seq<char>>,
    b: Seq<Seq<char>>,
    w: nat,
)
    ensures
        wrap_from(s, a + b, w) == wrap_from(wrap_from(s, a, w), b, w),
    decreases b.len(),
{
    if b.len() == 0 {
        assert(a + b =~= a);
    } else {
        lemma_wrap_from_concat(s, a, b.drop_last(), w);
        assert((a + b).drop_last() =~= a + b.drop_last());
        assert((a + b).last() == b.last());
    }
}

proof fn lemma_full_chunks(s: (Seq<Seq<char>>, Seq<char>), cs: Seq<Seq<char>>, w: nat)
    requires
        w >= 1,
        cs.len() > 0,
        forall|i: int| 0 <= i < cs.len() ==> (#[trigger] cs[i]).len() == w,
    ensures
        wrap_from(s, cs, w) == (closed_lines(s) + cs.drop_last(), cs.last()),
    decreases cs.len(),
{
    let d = cs.drop_last();
    assert(cs[cs.len() - 1] == cs.last());
    if d.len() == 0 {
        assert(wrap_from(s, d, w) == s);
        assert(closed_lines(s) + d =~= closed_lines(s));
    } else {
        assert forall|i: int| 0 <= i < d.len() implies (#[trigger] d[i]).len() == w by {
            assert(d[i] == cs[i]);
        }
        lemma_full_chunks(s, d, w);
        assert(d[d.len() - 1] == d.last());
        assert((closed_lines(s) + d.drop_last()).push(d.last()) =~= closed_lines(s) + d);
    }
}

proof fn lemma_hard_chunks_plain(word: Seq<char>, w: nat)
    requires
        w >= 1,
        has_no_white(word),
    ensures
        forall|i: int| 0 <= i < hard_chunks(word, w).0.len() ==> has_no_white(#[trigger] hard_chunks(word, w).0[i]),
        has_no_white(hard_chunks(word, w).1),
        word.len() > w ==> hard_chunks(word, w).0.len() > 0,
    decreases word.len(),
{
    if word.len() > w {
        let first = word.take(w as int);
        let rest = word.skip(w as int);
        assert(has_no_white(rest)) by {
            assert forall|j: int| 0 <= j < rest.len() implies !is_white_space(#[trigger] rest[j]) by {
                assert(rest[j] == word[j + w]);
            }
        }
        lemma_hard_chunks_plain(rest, w);
        let ch = hard_chunks(word, w);
        let rc = hard_chunks(rest, w);
        assert forall|i: int| 0 <= i < ch.0.len() implies has_no_white(#[trigger] ch.0[i]) by {
            if i == 0 {
                assert(ch.0[0] == first);
                assert forall|j: int| 0 <= j < first.len() implies !is_white_space(#[trigger] first[j]) by {
                    assert(first[j] == word[j]);
                }
            } else {
                assert(ch.0[i] == rc.0[i - 1]);
            }
        }
    }
}

proof fn lemma_step_pieces(s: (Seq<Seq<char>>, Seq<char>), word: Seq<char>, w: nat)
    requires
        w >= 1,
    ensures
        wrap_step(s, word, w) == wrap_from(s, word_pieces(word, w), w),
{
    let wp = word_pieces(word, w);
    if word.len() > w {
        let ch = hard_chunks(word, w);
        lemma_hard_chunks(word, w);
        lemma_hard_chunks_last_fits(word, w);
        assert(ch.0.len() > 0);
        lemma_full_chunks(s, ch.0, w);
        assert(wp.drop_last() =~= ch.0);
        assert(wp.last() == ch.1);
        assert(ch.0[ch.0.len() - 1] == ch.0.last());
        assert(ch.0.last().len() == w);
        assert(0 < ch.1.len() <= w);
        assert((closed_lines(s) + ch.0.drop_last()).push(ch.0.last()) =~= closed_lines(s) + ch.0);
        let mid = (closed_lines(s) + ch.0.drop_last(), ch.0.last());
        assert(wrap_from(s, wp, w) == wrap_step(wrap_from(s, wp.drop_last(), w), wp.last(), w));
        assert(wrap_from(s, wp.drop_last(), w) == mid);
        assert(wrap_step(mid, ch.1, w) == (closed_lines(s) + ch.0, ch.1));
        assert(wrap_step(s, word, w) == (closed_lines(s) + ch.0, ch.1));
    } else {
        assert(wp.drop_last() =~= Seq::<Seq<char>>::empty());
        assert(wp.last() == word);
        assert(wrap_from(s, wp.drop_last(), w) == s);
    }
}

proof fn lemma_wrap_pieces(ws: Seq<Seq<char>>, w: nat)
    requires
        w >= 1,
    ensures
        wrap_words(ws, w) == wrap_words(pieces(ws, w), w),
    decreases ws.len(),
{
    let e = (Seq::<Seq<char>>::empty(), Seq::<char>::empty());
    lemma_wrap_from_start(ws, w);
    lemma_wrap_from_start(pieces(ws, w), w);
    if ws.len() > 0 {
        let d = ws.drop_last();
        lemma_wrap_pieces(d, w);
        lemma_wrap_from_start(d, w);
        lemma_wrap_from_start(pieces(d, w), w);
        lemma_step_pieces(wrap_words(d, w), ws.last(), w);
        lemma_wrap_from_concat(e, pieces(d, w), word_pieces(ws.last(), w), w);
    }
}

} // verus!

verus! {

proof fn lemma_word_pieces_fit(word: Seq<char>, w: nat)
    requires
        w >= 1,
        word.len() > 0,
        has_no_white(word),
    ensures
        fitting_words(word_pieces(word, w), w),
{
    let wp = word_pieces(word, w);
    if word.len() > w {
        let ch = hard_chunks(word, w);
        lemma_hard_chunks(word, w);
        lemma_hard_chunks_last_fits(word, w);
        lemma_hard_chunks_plain(word, w);
        assert forall|i: int| 0 <= i < wp.len() implies (#[trigger] wp[i]).len() > 0 && wp[i].len()
            <= w && has_no_white(wp[i]) by {
            if i < ch.0.len() {
                assert(wp[i] == ch.0[i]);
            } else {
                assert(wp[i] == ch.1);
            }
        }
    } else {
        assert(wp[0] == word);
    }
}

proof fn lemma_pieces_fit(ws: Seq<Seq<char>>, w: nat)
    requires
        w >= 1,
        proper_words(ws),
    ensures
        fitting_words(pieces(ws, w), w),
    decreases ws.len(),
{
    if ws.len() > 0 {
        let d = ws.drop_last();
        assert(proper_words(d)) by {
            assert forall|i: int| 0 <= i < d.len() implies (#[trigger] d[i]).len() > 0
                && has_no_white(d[i]) by {
                assert(d[i] == ws[i]);
            }
        }
        lemma_pieces_fit(d, w);
        assert(ws[ws.len() - 1] == ws.last());
        lemma_word_pieces_fit(ws.last(), w);
        let a = pieces(d, w);
        let b = word_pieces(ws.last(), w);
        let all = a + b;
        assert forall|i: int| 0 <= i < all.len() implies (#[trigger] all[i]).len() > 0 && all[i].len()
            <= w && has_no_white(all[i]) by {
            if i < a.len() {
                assert(all[i] == a[i]);
            } else {
                assert(all[i] == b[i - a.len()]);
            }
        }
    }
}

/// Wrapping is idempotent: wrapping again, at the same width, the lines that
/// wrapping gave (joined by single spaces) gives the same lines.
pub proof fn lemma_wrap_idempotent(text: Seq<char>, width: nat)
    ensures
        wrap_lines(joined(wrap_lines(text, width)), width) == wrap_lines(text, width),
{
    let w = effective_width(width);
    let ws = words(text);
    lemma_words(text);
    lemma_wrap_words(ws, w);
    let st = wrap_words(ws, w);
    let lines = wrap_lines(text, width);
    if ws.len() == 0 {
        assert(st == (Seq::<Seq<char>>::empty(), Seq::<char>::empty()));
        assert(lines == seq![Seq::<char>::empty()]);
        assert(joined(lines) == Seq::<char>::empty());
        assert(words(Seq::<char>::empty()) =~= Seq::<Seq<char>>::empty());
    } else {
        let ps = pieces(ws, w);
        lemma_wrap_pieces(ws, w);
        lemma_pieces_fit(ws, w);
        lemma_wrap_words_text(ps, w);
        assert(lines == closed_lines(st));
        assert(words(joined(lines)) == ps);
    }
}

} // verus!

verus! {

/// The text of `s` up to its first space (all of it when it has none).
pub open spec fn first_word(s: Seq<char>) -> Seq<char>
    decreases s.len(),
{
    if s.len() == 0 {
        s
    } else if s[0] == ' ' {
        Seq::<char>::empty()
    } else {
        seq![s[0]] + first_word(s.drop_first())
    }
}

proof fn lemma_first_word_plain(p: Seq<char>)
    requires
        has_no_white(p),
    ensures
        first_word(p) == p,
    decreases p.len(),
{
    if p.len() > 0 {
        assert(has_no_white(p.drop_first())) by {
            assert forall|j: int| 0 <= j < p.drop_first().len() implies !is_white_space(
                #[trigger] p.drop_first()[j],
            ) by {
                assert(p.drop_first()[j] == p[j + 1]);
            }
        }
        assert(!is_white_space(p[0]));
        lemma_first_word_plain(p.drop_first());
        assert(seq![p[0]] + p.drop_first() =~= p);
    }
}

proof fn lemma_first_word_join(x: Seq<char>, y: Seq<char>)
    ensures
        first_word(x + seq![' '] + y) == first_word(x),
    decreases x.len(),
{
    let s = x + seq![' '] + y;
    if x.len() == 0 {
        assert(s[0] == ' ');
    } else {
        assert(s[0] == x[0]);
        if x[0] != ' ' {
            assert(s.drop_first() =~= x.drop_first() + seq![' '] + y);
            lemma_first_word_join(x.drop_first(), y);
        }
    }
}

/// What the greedy wrapping keeps: the line being filled is empty only before
/// the first line, and no line could have taken the first word of the line after
/// it (or of the line being filled) within the width.
pub open spec fn greedy_state(st: (Seq<Seq<char>>, Seq<char>), w: nat) -> bool {
    &&& st.1.len() == 0 ==> st.0.len() == 0
    &&& forall|i: int|
        0 <= i < st.0.len() - 1 ==> #[trigger] st.0[i].len() + 1 + first_word(st.0[i + 1]).len() > w
    &&& st.0.len() > 0 ==> st.0.last().len() + 1 + first_word(st.1).len() > w
}

/// Lines of which no one could have taken the first word of the next within `w`.
pub open spec fn greedy_lines(ls: Seq<Seq<char>>, w: nat) -> bool {
    forall|i: int| 0 <= i < ls.len() - 1 ==> #[trigger] ls[i].len() + 1 + first_word(ls[i + 1]).len() > w
}

proof fn lemma_greedy_closed(st: (Seq<Seq<char>>, Seq<char>), w: nat)
    requires
        greedy_state(st, w),
    ensures
        greedy_lines(closed_lines(st), w),
{
    let c = closed_lines(st);
    if st.1.len() > 0 {
        assert forall|i: int| 0 <= i < c.len() - 1 implies #[trigger] c[i].len() + 1 + first_word(
            c[i + 1],
        ).len() > w by {
            if i < st.0.len() - 1 {
                assert(c[i] == st.0[i] && c[i + 1] == st.0[i + 1]);
            } else {
                assert(c[i] == st.0.last() && c[i + 1] == st.1);
            }
        }
    }
}

proof fn lemma_greedy_chunks_append(f: Seq<Seq<char>>, cs: Seq<Seq<char>>, w: nat)
    requires
        w >= 1,
        greedy_lines(f, w),
        cs.len() > 0,
        forall|i: int| 0 <= i < cs.len() ==> (#[trigger] cs[i]).len() == w && has_no_white(cs[i]),
    ensures
        greedy_lines(f + cs, w),
{
    let n = f + cs;
    assert forall|i: int| 0 <= i < n.len() - 1 implies #[trigger] n[i].len() + 1 + first_word(
        n[i + 1],
    ).len() > w by {
        if i < f.len() - 1 {
            assert(n[i] == f[i] && n[i + 1] == f[i + 1]);
        } else if i == f.len() - 1 {
            assert(n[i + 1] == cs[0]);
            lemma_first_word_plain(cs[0]);
        } else {
            assert(n[i] == cs[i - f.len()]);
        }
    }
}

proof fn lemma_greedy_step(st: (Seq<Seq<char>>, Seq<char>), word: Seq<char>, w: nat)
    requires
        w >= 1,
        greedy_state(st, w),
        word.len() > 0,
        has_no_white(word),
    ensures
        greedy_state(wrap_step(st, word, w), w),
{
    let lines = st.0;
    let cur = st.1;
    let r = wrap_step(st, word, w);
    lemma_first_word_plain(word);
    if word.len() > w {
        let ch = hard_chunks(word, w);
        lemma_hard_chunks(word, w);
        lemma_hard_chunks_plain(word, w);
        lemma_hard_chunks_last_fits(word, w);
        lemma_greedy_closed(st, w);
        let f = closed_lines(st);
        assert forall|i: int| 0 <= i < ch.0.len() implies (#[trigger] ch.0[i]).len() == w
            && has_no_white(ch.0[i]) by {}
        lemma_greedy_chunks_append(f, ch.0, w);
        assert(r.0 == f + ch.0);
        assert(r.0.last() == ch.0.last()) by {
            assert((f + ch.0)[(f + ch.0).len() - 1] == ch.0[ch.0.len() - 1]);
        }
        assert(ch.0[ch.0.len() - 1].len() == w);
    } else if cur.len() == 0 {
    } else if cur.len() + 1 + word.len() > w {
        let n = lines.push(cur);
        assert forall|i: int| 0 <= i < n.len() - 1 implies #[trigger] n[i].len() + 1 + first_word(
            n[i + 1],
        ).len() > w by {
            if i < lines.len() - 1 {
                assert(n[i] == lines[i] && n[i + 1] == lines[i + 1]);
            } else {
                assert(n[i] == lines.last() && n[i + 1] == cur);
            }
        }
    } else {
        lemma_first_word_join(cur, word);
        assert(cur + seq![' '] + word == r.1);
    }
}

proof fn lemma_wrap_words_greedy(ws: Seq<Seq<char>>, w: nat)
    requires
        w >= 1,
        proper_words(ws),
    ensures
        greedy_state(wrap_words(ws, w), w),
    decreases ws.len(),
{
    if ws.len() > 0 {
        let d = ws.drop_last();
        assert(proper_words(d)) by {
            assert forall|i: int| 0 <= i < d.len() implies (#[trigger] d[i]).len() > 0
                && has_no_white(d[i]) by {
                assert(d[i] == ws[i]);
            }
        }
        lemma_wrap_words_greedy(d, w);
        assert(ws[ws.len() - 1] == ws.last());
        lemma_greedy_step(wrap_words(d, w), ws.last(), w);
    }
}

/// Wrapping is greedy: no line could have taken the first word of the line after
/// it, since with a space between them they would not fit in the width.
pub proof fn lemma_wrap_greedy(text: Seq<char>, width: nat)
    ensures
        forall|i: int|
            0 <= i < wrap_lines(text, width).len() - 1 ==> #[trigger] wrap_lines(text, width)[i].len() + 1
                + first_word(wrap_lines(text, width)[i + 1]).len() > effective_width(width),
{
    let w = effective_width(width);
    lemma_words(text);
    lemma_wrap_words_greedy(words(text), w);
    lemma_greedy_closed(wrap_words(words(text), w), w);
    let l = wrap_lines(text, width);
    assert(greedy_lines(l, w));
}

} // verus!

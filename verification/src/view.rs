use vstd::prelude::*;
use vstd::string::StringExecFns;
use crate::browser::{min_int, shown_description, App};
use crate::layout::sat_sub;
use crate::model::{copy_opt, Repo};
use crate::text::{push_char, same_text};

verus! {

broadcast use vstd::string::group_string_axioms;

/// The character of a decimal digit.
pub open spec fn digit_char(d: nat) -> char {
    if d == 0 {
        '0'
    } else if d == 1 {
        '1'
    } else if d == 2 {
        '2'
    } else if d == 3 {
        '3'
    } else if d == 4 {
        '4'
    } else if d == 5 {
        '5'
    } else if d == 6 {
        '6'
    } else if d == 7 {
        '7'
    } else if d == 8 {
        '8'
    } else {
        '9'
    }
}

/// The decimal writing of `n`, without leading zeros (`0` for zero).
pub open spec fn decimal_text(n: nat) -> Seq<char>
    decreases n,
{
    if n < 10 {
        seq![digit_char(n)]
    } else {
        decimal_text(n / 10).push(digit_char(n % 10))
    }
}

fn digit(d: usize) -> (c: char)
    requires
        d < 10,
    ensures
        c == digit_char(d as nat),
{
    if d == 0 {
        '0'
    } else if d == 1 {
        '1'
    } else if d == 2 {
        '2'
    } else if d == 3 {
        '3'
    } else if d == 4 {
        '4'
    } else if d == 5 {
        '5'
    } else if d == 6 {
        '6'
    } else if d == 7 {
        '7'
    } else if d == 8 {
        '8'
    } else {
        '9'
    }
}

/// `n` written in decimal.
pub fn decimal(n: usize) -> (r: String)
    ensures
        r@ == decimal_text(n as nat),
    decreases n,
{
    if n < 10 {
        let mut s = String::new();
        push_char(&mut s, digit(n));
        assert(s@ =~= seq![digit_char(n as nat)]);
        s
    } else {
        let mut s = decimal(n / 10);
        push_char(&mut s, digit(n % 10));
        s
    }
}

/// The box of a yes/no field: checked or empty.
pub fn checkbox(on: bool) -> (r: &'static str)
    ensures
        r@ == (if on {
            "[x]"@
        } else {
            "[ ]"@
        }),
{
    if on {
        "[x]"
    } else {
        "[ ]"
    }
}

/// The hint after a focused yes/no field.
pub fn toggle_hint(focused: bool) -> (r: &'static str)
    ensures
        r@ == (if focused {
            "  Space:toggle"@
        } else {
            ""@
        }),
{
    if focused {
        "  Space:toggle"
    } else {
        ""
    }
}

/// The hint after a focused path field.
pub fn path_hint(focused: bool, is_path: bool) -> (r: &'static str)
    ensures
        r@ == (if focused && is_path {
            "  Tab:complete  Bksp:up dir"@
        } else {
            ""@
        }),
{
    if focused && is_path {
        "  Tab:complete  Bksp:up dir"
    } else {
        ""
    }
}

/// The cursor shown after the value of the focused text field.
pub fn cursor(focused: bool) -> (r: &'static str)
    ensures
        r@ == (if focused {
            "\u{2588}"@
        } else {
            ""@
        }),
{
    if focused {
        "\u{2588}"
    } else {
        ""
    }
}

/// Which completion is shown, of how many: ` (index+1/total)`.
pub fn completion_counter(index: usize, total: usize) -> (r: String)
    requires
        index < total,
    ensures
        r@ == " ("@ + decimal_text(index as nat + 1) + "/"@ + decimal_text(total as nat) + ")"@,
{
    let mut s = " (".to_string();
    s.append(decimal(index + 1).as_str());
    s.append("/");
    s.append(decimal(total).as_str());
    s.append(")");
    s
}

/// The mark after the name of a repository: a lock for a private one.
pub open spec fn lock_text(repo: Repo) -> Seq<char> {
    if repo.visibility@ == "private"@ {
        " \u{f023}"@
    } else {
        ""@
    }
}

/// The mark after the name of a private repository.
pub fn lock_mark(repo: &Repo) -> (r: &'static str)
    ensures
        r@ == lock_text(*repo),
{
    if same_text(repo.visibility.as_str(), "private") {
        " \u{f023}"
    } else {
        ""
    }
}

/// The length in bytes of the UTF-8 text of `s` (what `str::len` gives).
pub open spec fn byte_len(s: Seq<char>) -> int {
    (vstd::utf8::encode_utf8(s).len() as usize) as int
}

/// The spaces between a repository's name and its lock mark in a list row
/// `inner_width` columns wide: what is left after the icon (two columns), the
/// name and the mark, counted in bytes.
pub fn row_padding(inner_width: usize, repo: &Repo) -> (r: usize)
    ensures
        r == sat_sub(
            inner_width as int,
            2 + byte_len(repo.name@) + byte_len(lock_text(*repo)),
        ),
{
    let nm = repo.name.as_str();
    let name_len = nm.len();
    let lock = lock_mark(repo);
    let lock_len = lock.len();
    assert(name_len == byte_len(repo.name@));
    assert(lock_len == byte_len(lock_text(*repo)));
    if name_len < inner_width && inner_width - name_len > 2 && inner_width - name_len - 2 > lock_len {
        inner_width - name_len - 2 - lock_len
    } else {
        0
    }
}

/// The marker before the selected line of the info panel.
pub fn info_marker(selected: bool) -> (r: &'static str)
    ensures
        r@ == (if selected {
            "\u{25b6} "@
        } else {
            "  "@
        }),
{
    if selected {
        "\u{25b6} "
    } else {
        "  "
    }
}

/// `s` followed by spaces up to `n` characters (nothing added when it is as long).
pub open spec fn padded(s: Seq<char>, n: nat) -> Seq<char> {
    s + Seq::new(sat_sub(n as int, s.len() as int) as nat, |i: int| ' ')
}

/// A label padded with spaces to 13 characters, the width of the label column.
pub fn padded_label(label: &str) -> (r: String)
    ensures
        r@ == padded(label@, 13),
{
    let mut s = label.to_string();
    let mut n: usize = label.unicode_len();
    let ghost start = label@;
    while n < 13
        invariant
            start == label@,
            n == s@.len(),
            label@.len() <= n,
            n <= 13 || n == label@.len(),
            s@ =~= start + Seq::new((n - start.len()) as nat, |i: int| ' '),
        decreases 13 - n,
    {
        push_char(&mut s, ' ');
        n = n + 1;
    }
    assert(s@ =~= padded(label@, 13));
    s
}

/// The value of an optional text, or `fallback`.
pub open spec fn text_or(s: Option<String>, fallback: Seq<char>) -> Seq<char> {
    match s {
        Some(v) => v@,
        None => fallback,
    }
}

/// The eight lines of the info panel for a repository, as label and value.
pub open spec fn info_entries(r: Repo) -> Seq<(Seq<char>, Seq<char>)> {
    seq![
        ("Name"@, r.name@),
        ("Description"@, shown_description(r)),
        ("URL"@, r.url@),
        ("Language"@, text_or(r.language, "Unknown"@)),
        ("License"@, text_or(r.license, "None"@)),
        ("Stars"@, "\u{2605} "@ + decimal_text(r.stars as nat)),
        ("Visibility"@, r.visibility@),
        ("Updated"@, r.last_updated@),
    ]
}

fn text_or_exec(s: &Option<String>, fallback: &str) -> (r: String)
    ensures
        r@ == text_or(*s, fallback@),
{
    match copy_opt(s) {
        Some(v) => v,
        None => fallback.to_string(),
    }
}

/// The label and value of each line of the info panel.
pub fn info_values(repo: &Repo) -> (r: Vec<(String, String)>)
    ensures
        r@.len() == 8,
        forall|i: int|
            0 <= i < 8 ==> (#[trigger] r@[i]).0@ == info_entries(*repo)[i].0 && r@[i].1@
                == info_entries(*repo)[i].1,
{
    let mut stars = "\u{2605} ".to_string();
    stars.append(decimal(repo.stars as usize).as_str());
    let v = vec![
        ("Name".to_string(), repo.name.clone()),
        ("Description".to_string(), text_or_exec(&repo.description, "No description")),
        ("URL".to_string(), repo.url.clone()),
        ("Language".to_string(), text_or_exec(&repo.language, "Unknown")),
        ("License".to_string(), text_or_exec(&repo.license, "None")),
        ("Stars".to_string(), stars),
        ("Visibility".to_string(), repo.visibility.clone()),
        ("Updated".to_string(), repo.last_updated.clone()),
    ];
    v
}

} // verus!

verus! {

/// Name for the number of rows that ratatui's `Paragraph` takes for a text when it
/// wraps it, without trimming, to `width` columns.
pub uninterp spec fn paragraph_rows(text: Seq<char>, width: nat) -> nat;

/// `Paragraph::new(text).wrap(Wrap { trim: false }).line_count(width)` of ratatui:
/// Verus believes that it gives `paragraph_rows` of the text and width, and 0 for
/// a width of 0 (as its source shows).
#[verifier::external_body]
fn paragraph_line_count(text: &str, width: u16) -> (r: usize)
    ensures
        r == paragraph_rows(text@, width as nat),
        width == 0 ==> r == 0,
{
    ratatui::widgets::Paragraph::new(text).wrap(ratatui::widgets::Wrap { trim: false }).line_count(
        width,
    )
}

/// The rows that a plain text takes in a panel `width` columns wide (at least
/// one column), at most `u16::MAX`.
pub open spec fn visual_rows(text: Seq<char>, width: u16) -> u16 {
    let n = paragraph_rows(text, if width > 1 { width as nat } else { 1 });
    if n > u16::MAX {
        u16::MAX
    } else {
        n as u16
    }
}

/// The rows that a plain text takes in a panel `width` columns wide.
pub fn visual_line_count(text: &str, width: u16) -> (r: u16)
    ensures
        r == visual_rows(text@, width),
{
    let w: u16 = if width > 1 { width } else { 1 };
    let n = paragraph_line_count(text, w);
    if n > 65535 {
        65535
    } else {
        n as u16
    }
}

impl App {
    /// Lays out a README shown as plain text in a panel `inner_width` columns
    /// wide: records the rows it takes, and keeps the scroll within them.
    pub fn lay_out_plain_readme(&mut self, inner_width: u16, text: &str)
        ensures
            final(self).readme_scroll == min_int(
                old(self).readme_scroll as int,
                (App {
                    readme_line_count: visual_rows(text@, inner_width),
                    ..*old(self)
                }).max_readme_scroll_of(),
            ),
            *final(self) == (App {
                readme_line_count: visual_rows(text@, inner_width),
                readme_rendered_width: inner_width,
                readme_scroll: final(self).readme_scroll,
                ..*old(self)
            }),
    {
        let rows = visual_line_count(text, inner_width);
        self.readme_laid_out(inner_width, rows);
    }
}

} // verus!

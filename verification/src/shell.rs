//! What the library reads from the shell around it: whether the user is the
//! superuser, which shell is in use, how the pager is called, and terminal
//! rendering of Markdown.
use crate::question::{lowercase, to_lowercase};
use crate::text::{split_on, split_str, str_eq, string_of};
use vstd::prelude::*;

verus! {

/// Whether `pat` occurs in `s` at position `i`.
pub open spec fn occurs_at(s: Seq<char>, pat: Seq<char>, i: int) -> bool {
    0 <= i && i + pat.len() <= s.len() && s.subrange(i, i + pat.len()) == pat
}

/// Whether `pat` occurs somewhere in `s`.
pub open spec fn contains_text(s: Seq<char>, pat: Seq<char>) -> bool {
    exists|i: int| occurs_at(s, pat, i)
}

/// Whether `pat` occurs in `s`.
pub fn str_contains(s: &str, pat: &str) -> (r: bool)
    ensures
        r == contains_text(s@, pat@),
{
    let a = crate::text::chars_of(s);
    let b = crate::text::chars_of(pat);
    if b.len() == 0 {
        assert(s@.subrange(0, 0) =~= pat@);
        assert(occurs_at(s@, pat@, 0));
        return true;
    }
    if b.len() > a.len() {
        return false;
    }
    let last = a.len() - b.len();
    let mut i: usize = 0;
    while i <= last
        invariant
            a@ == s@,
            b@ == pat@,
            0 < b.len() <= a.len(),
            last == a.len() - b.len(),
            i <= last + 1,
            forall|k: int| 0 <= k < i ==> !occurs_at(s@, pat@, k),
        decreases last + 1 - i,
    {
        let mut j: usize = 0;
        let mut same = true;
        while j < b.len()
            invariant
                a@ == s@,
                b@ == pat@,
                i <= last,
                last == a.len() - b.len(),
                j <= b.len(),
                same == forall|m: int| 0 <= m < j ==> a@[i + m] == b@[m],
            decreases b.len() - j,
        {
            if a[i + j] != b[j] {
                same = false;
            }
            j = j + 1;
        }
        if same {
            assert(s@.subrange(i as int, i + pat@.len()) =~= pat@);
            assert(occurs_at(s@, pat@, i as int));
            return true;
        }
        proof {
            if occurs_at(s@, pat@, i as int) {
                let m = choose|m: int| 0 <= m < b@.len() && a@[i + m] != b@[m];
                assert(s@.subrange(i as int, i + pat@.len())[m] == a@[i + m]);
            }
        }
        i = i + 1;
    }
    false
}

/// Whether the output of `id` shows the superuser: it holds `uid=0(root)`.
pub fn is_root_id(id_output: &str) -> (r: bool)
    ensures
        r == contains_text(id_output@, "uid=0(root)"@),
{
    str_contains(id_output, "uid=0(root)")
}

/// The name of the shell whose path is `shell_path` (the value of `SHELL`):
/// the part after its last `/`; `unknown` when there is no such value.
pub fn shell_name(shell_path: Option<&str>) -> (r: String)
    ensures
        r@ == match shell_path {
            Some(p) => split_on(p@, '/').last(),
            None => split_on("unknown"@, '/').last(),
        },
{
    let path = match shell_path {
        Some(p) => p,
        None => "unknown",
    };
    let pieces = split_str(path, '/');
    proof {
        crate::text::lemma_split_on_nonempty(path@, '/');
        assert(pieces.deep_view().len() == pieces@.len());
        assert(pieces.deep_view()[pieces@.len() - 1] == pieces@[pieces@.len() - 1]@);
    }
    let n = pieces.len();
    pieces[n - 1].clone()
}

/// The Markdown text `md_text` laid out for the terminal.
///
/// Calls `termimad::MadSkin::term_text` on a skin with grey bold text and red
/// struck-out text. Nothing is stated of the result: the lines are wrapped to
/// the width of the terminal in use.
#[verifier::external_body]
pub fn markdown(md_text: &str) -> String {
    let mut skin = termimad::MadSkin::default();
    skin.bold.set_fg(termimad::gray(20));
    skin.strikeout = termimad::CompoundStyle::new(
        Some(termimad::crossterm::style::Color::Red),
        None,
        termimad::crossterm::style::Attribute::Bold.into(),
    );
    format!("{}", skin.term_text(md_text))
}

/// The arguments that the pager gets: `-R -F -X -` when the file name of
/// the pager command is `less` in any case, none otherwise.
pub fn pager_arguments(file_name: &str) -> (r: Vec<String>)
    ensures
        lowercase(file_name@) == "less"@ ==> r.deep_view() == seq!["-R"@, "-F"@, "-X"@, "-"@],
        lowercase(file_name@) != "less"@ ==> r.len() == 0,
{
    let name = to_lowercase(file_name);
    let mut r: Vec<String> = Vec::new();
    if str_eq(name.as_str(), "less") {
        r.push(string_of("-R"));
        r.push(string_of("-F"));
        r.push(string_of("-X"));
        r.push(string_of("-"));
        assert(r.deep_view() =~= seq!["-R"@, "-F"@, "-X"@, "-"@]);
    }
    r
}

} // verus!

//! The list of installed packages of one scope (local or global).
use crate::color::{reset_seq, Colorize, StyleModifier};
use crate::pkg::render::relation_text;
use crate::pkg::{PackageData, PackageView};
use crate::text::{split_on, string_of};
use vstd::prelude::*;

verus! {

/// One installed package and when its entry was last written.
#[derive(Debug)]
pub struct InstalledPackageData {
    /// The package's metadata.
    pub info: PackageData,
    /// When the entry was last written, as an RFC 3339 date and time.
    pub last_modified: String,
}

/// The view of an [`InstalledPackageData`].
pub struct InstalledView {
    pub info: PackageView,
    pub last_modified: Seq<char>,
}

impl DeepView for InstalledPackageData {
    type V = InstalledView;

    open spec fn deep_view(&self) -> InstalledView {
        InstalledView { info: self.info.deep_view(), last_modified: self.last_modified@ }
    }
}

impl Clone for InstalledPackageData {
    fn clone(&self) -> (r: InstalledPackageData)
        ensures
            r.deep_view() == self.deep_view(),
    {
        InstalledPackageData { info: self.info.clone(), last_modified: self.last_modified.clone() }
    }
}

/// A copy of the installed entries `v`.
pub fn clone_installed(v: &Vec<InstalledPackageData>) -> (r: Vec<InstalledPackageData>)
    ensures
        r.deep_view() == v.deep_view(),
{
    let mut r: Vec<InstalledPackageData> = Vec::new();
    let mut i: usize = 0;
    while i < v.len()
        invariant
            i <= v@.len(),
            r.deep_view() == v.deep_view().take(i as int),
        decreases v.len() - i,
    {
        let ghost before = r.deep_view();
        r.push(v[i].clone());
        assert(r.deep_view() =~= before.push(v[i as int].deep_view()));
        assert(v.deep_view().take(i + 1) =~= v.deep_view().take(i as int).push(v[i as int].deep_view()));
        i = i + 1;
    }
    assert(v.deep_view().take(v@.len() as int) =~= v.deep_view());
    r
}

/// The current local date and time, as RFC 3339 text.
///
/// Calls `chrono::Local::now` and formats the result with
/// `DateTime::to_rfc3339`. Nothing is stated of the text: it depends on the
/// clock and the time zone of the machine.
#[verifier::external_body]
pub(crate) fn now_rfc3339() -> String {
    chrono::Local::now().to_rfc3339()
}

/// The metadata of the installed packages `s`, in order.
pub open spec fn infos(s: Seq<InstalledView>) -> Seq<PackageView> {
    s.map_values(|x: InstalledView| x.info)
}

/// The packages installed in one scope and when the list was last written.
#[derive(Debug)]
pub struct PackageListData {
    /// When the list was last written, as an RFC 3339 date and time.
    pub last_modified: String,
    /// The installed packages.
    pub installed_packages: Vec<InstalledPackageData>,
}

impl PackageListData {
    /// An empty list written at `last_modified`.
    pub fn empty_at(last_modified: String) -> (r: PackageListData)
        ensures
            r.last_modified@ == last_modified@,
            r.installed_packages@.len() == 0,
    {
        PackageListData { last_modified, installed_packages: Vec::new() }
    }
}

/// The name of an installed package.
pub open spec fn installed_name(x: InstalledView) -> Seq<char> {
    x.info.about.package.name
}

/// The position of the first entry of `s` named `n`, if any.
pub open spec fn position_named(s: Seq<InstalledView>, n: Seq<char>) -> Option<int>
    decreases s.len(),
{
    if s.len() == 0 {
        None
    } else if installed_name(s[0]) == n {
        Some(0)
    } else {
        match position_named(s.drop_first(), n) {
            Some(k) => Some(k + 1),
            None => None,
        }
    }
}

/// The entries `s` with `x` recorded: in place of the first entry with its
/// name, or at the end when there is none.
pub open spec fn with_package(s: Seq<InstalledView>, x: InstalledView) -> Seq<InstalledView> {
    match position_named(s, installed_name(x)) {
        Some(k) => s.update(k, x),
        None => s.push(x),
    }
}

/// The entries `s` without those named `n`, in order.
pub open spec fn without_package(s: Seq<InstalledView>, n: Seq<char>) -> Seq<InstalledView> {
    s.filter(|x: InstalledView| installed_name(x) != n)
}

proof fn lemma_position_named(s: Seq<InstalledView>, n: Seq<char>)
    ensures
        match position_named(s, n) {
            Some(k) => 0 <= k < s.len() && installed_name(s[k]) == n && forall|j: int|
                0 <= j < k ==> installed_name(#[trigger] s[j]) != n,
            None => forall|j: int| 0 <= j < s.len() ==> installed_name(#[trigger] s[j]) != n,
        },
    decreases s.len(),
{
    if s.len() > 0 {
        lemma_position_named(s.drop_first(), n);
        assert forall|j: int| 1 <= j < s.len() implies #[trigger] s[j] == s.drop_first()[j - 1] by {}
    }
}

/// After a package is recorded, the first entry with its name is the new one.
pub proof fn lemma_recorded_package_found(s: Seq<InstalledView>, x: InstalledView)
    ensures
        position_named(with_package(s, x), installed_name(x)) matches Some(k) && with_package(s, x)[k] == x,
{
    let n = installed_name(x);
    lemma_position_named(s, n);
    let t = with_package(s, x);
    lemma_position_named(t, n);
    match position_named(s, n) {
        Some(k) => {
            assert(t[k] == x);
            assert forall|j: int| 0 <= j < k implies installed_name(#[trigger] t[j]) != n by {
                assert(t[j] == s[j]);
            }
        },
        None => {
            assert(t[s.len() as int] == x);
            assert forall|j: int| 0 <= j < s.len() implies installed_name(#[trigger] t[j]) != n by {
                assert(t[j] == s[j]);
            }
        },
    }
}

/// Recording a package keeps every entry with another name, in place.
pub proof fn lemma_record_keeps_others(s: Seq<InstalledView>, x: InstalledView, i: int)
    requires
        0 <= i < s.len(),
        installed_name(s[i]) != installed_name(x),
    ensures
        with_package(s, x)[i] == s[i],
{
    lemma_position_named(s, installed_name(x));
}

/// After a package is taken out, no entry has its name, and every entry
/// with another name stays.
pub proof fn lemma_removed_package_gone(s: Seq<InstalledView>, n: Seq<char>)
    ensures
        forall|k: int|
            0 <= k < without_package(s, n).len() ==> installed_name(#[trigger] without_package(s, n)[k]) != n,
        forall|i: int| 0 <= i < s.len() && installed_name(#[trigger] s[i]) != n ==> without_package(s, n).contains(s[i]),
{
    let pred = |x: InstalledView| installed_name(x) != n;
    assert forall|k: int| 0 <= k < without_package(s, n).len() implies installed_name(
        #[trigger] without_package(s, n)[k],
    ) != n by {
        s.lemma_filter_pred(pred, k);
    }
    assert forall|i: int| 0 <= i < s.len() && installed_name(#[trigger] s[i]) != n implies without_package(s, n).contains(
        s[i],
    ) by {
        s.lemma_filter_contains(pred, i);
    }
}

impl PackageListData {
    /// Records `new_pkg`: it replaces the first entry with its name, or is
    /// added at the end when there is none. Whether an entry was replaced.
    pub fn add_pkg(&mut self, new_pkg: InstalledPackageData) -> (found: bool)
        ensures
            final(self).installed_packages.deep_view() == with_package(
                old(self).installed_packages.deep_view(),
                new_pkg.deep_view(),
            ),
            final(self).last_modified@ == old(self).last_modified@,
            found == position_named(old(self).installed_packages.deep_view(), installed_name(new_pkg.deep_view())) is Some,
    {
        let ghost s = self.installed_packages.deep_view();
        let ghost n = installed_name(new_pkg.deep_view());
        proof {
            lemma_position_named(s, n);
        }
        let mut i: usize = 0;
        while i < self.installed_packages.len()
            invariant
                i <= self.installed_packages@.len(),
                s == self.installed_packages.deep_view(),
                s == old(self).installed_packages.deep_view(),
                self.last_modified@ == old(self).last_modified@,
                n == installed_name(new_pkg.deep_view()),
                forall|j: int| 0 <= j < i ==> installed_name(#[trigger] s[j]) != n,
            decreases self.installed_packages.len() - i,
        {
            if crate::text::str_eq(
                self.installed_packages[i].info.about.package.name.as_str(),
                new_pkg.info.about.package.name.as_str(),
            ) {
                proof {
                    assert(installed_name(s[i as int]) == n);
                    lemma_position_named(s, n);
                    if let Some(k) = position_named(s, n) {
                        if k < i {
                            assert(installed_name(s[k]) != n);
                        }
                        if k > i {
                            assert(installed_name(s[i as int]) != n);
                        }
                        assert(k == i);
                    }
                }
                let ghost x = new_pkg.deep_view();
                self.installed_packages.set(i, new_pkg);
                assert(self.installed_packages.deep_view() =~= s.update(i as int, x));
                return true;
            }
            i = i + 1;
        }
        let ghost x = new_pkg.deep_view();
        proof {
            lemma_position_named(s, n);
        }
        self.installed_packages.push(new_pkg);
        assert(self.installed_packages.deep_view() =~= s.push(x));
        false
    }

    /// Whether an entry is named `package_name`.
    pub fn contains_package(&self, package_name: &str) -> (r: bool)
        ensures
            r == exists|i: int|
                0 <= i < self.installed_packages@.len() && installed_name(
                    #[trigger] self.installed_packages.deep_view()[i],
                ) == package_name@,
    {
        let mut i: usize = 0;
        while i < self.installed_packages.len()
            invariant
                i <= self.installed_packages@.len(),
                forall|j: int|
                    0 <= j < i ==> installed_name(#[trigger] self.installed_packages.deep_view()[j]) != package_name@,
            decreases self.installed_packages.len() - i,
        {
            if crate::text::str_eq(self.installed_packages[i].info.about.package.name.as_str(), package_name) {
                assert(installed_name(self.installed_packages.deep_view()[i as int]) == package_name@);
                return true;
            }
            i = i + 1;
        }
        false
    }

    /// Takes out every entry named `package_name`. Whether one was taken out.
    pub fn del_pkg(&mut self, package_name: &str) -> (removed: bool)
        ensures
            final(self).installed_packages.deep_view() == without_package(
                old(self).installed_packages.deep_view(),
                package_name@,
            ),
            final(self).last_modified@ == old(self).last_modified@,
            removed == exists|i: int|
                0 <= i < old(self).installed_packages@.len() && installed_name(
                    #[trigger] old(self).installed_packages.deep_view()[i],
                ) == package_name@,
    {
        let ghost s = self.installed_packages.deep_view();
        let ghost n = package_name@;
        let ghost pred = |x: InstalledView| installed_name(x) != n;
        let mut kept: Vec<InstalledPackageData> = Vec::new();
        let mut removed = false;
        let mut i: usize = 0;
        while i < self.installed_packages.len()
            invariant
                i <= self.installed_packages@.len(),
                s == self.installed_packages.deep_view(),
                n == package_name@,
                pred == (|x: InstalledView| installed_name(x) != n),
                kept.deep_view() == s.take(i as int).filter(pred),
                removed == exists|j: int| 0 <= j < i && installed_name(#[trigger] s[j]) == n,
            decreases self.installed_packages.len() - i,
        {
            proof {
                reveal(Seq::filter);
                assert(s.take(i + 1).drop_last() =~= s.take(i as int));
                assert(s.take(i + 1).last() == s[i as int]);
            }
            let item = &self.installed_packages[i];
            if crate::text::str_eq(item.info.about.package.name.as_str(), package_name) {
                removed = true;
            } else {
                let ghost before = kept.deep_view();
                kept.push(item.clone());
                assert(kept.deep_view() =~= before.push(s[i as int]));
            }
            i = i + 1;
        }
        assert(s.take(s.len() as int) =~= s);
        self.installed_packages = kept;
        removed
    }
}

/// The lines of `s` as `str::lines` gives them: the pieces between line
/// feeds, without a final empty piece, each without a trailing carriage return.
pub open spec fn text_lines(s: Seq<char>) -> Seq<Seq<char>> {
    let pieces = split_on(s, '\n');
    let kept = if pieces.last().len() == 0 {
        pieces.drop_last()
    } else {
        pieces
    };
    kept.map_values(|l: Seq<char>| if l.len() > 0 && l.last() == '\r' {
        l.drop_last()
    } else {
        l
    })
}

/// The lines `ls`, each after six spaces and followed by a line feed.
pub open spec fn indented(ls: Seq<Seq<char>>) -> Seq<char>
    decreases ls.len(),
{
    if ls.len() == 0 {
        Seq::empty()
    } else {
        indented(ls.drop_last()) + "      "@ + ls.last() + "\n"@
    }
}

/// Whether a package has no relation of any kind.
pub open spec fn relation_is_empty(r: crate::pkg::RelationView) -> bool {
    &&& r.depend.len() == 0
    &&& r.depend_cmds.len() == 0
    &&& r.suggests.len() == 0
    &&& r.recommends.len() == 0
    &&& r.conflicts.len() == 0
    &&& r.virtuals.len() == 0
    &&& r.provide_cmds.len() == 0
}

/// The text of one installed package: name, version, author, when it was
/// written, and its relations (indented) when it has any.
#[verifier::opaque]
pub open spec fn installed_text(x: InstalledView) -> Seq<char> {
    "  "@ + ("\x1b[1m"@ + "Name"@ + reset_seq()) + ": "@ + ("\x1b[36m"@ + x.info.about.package.name + reset_seq())
        + "\n"@ + "    "@ + ("\x1b[1m"@ + "Version"@ + reset_seq()) + ": "@ + x.info.about.package.version + "\n"@
        + "    "@ + ("\x1b[1m"@ + "Author"@ + reset_seq()) + ": "@ + x.info.about.author.name + " <"@
        + x.info.about.author.email + ">\n"@ + "    "@ + ("\x1b[1m"@ + "Last Modified"@ + reset_seq()) + ": "@
        + x.last_modified + "\n"@ + if relation_is_empty(x.info.relation) {
        Seq::empty()
    } else {
        "    "@ + ("\x1b[1m"@ + "Relations:"@ + reset_seq()) + "\n"@ + indented(text_lines(relation_text(x.info.relation)))
    }
}

/// Appends each line of `ls` after six spaces.
fn push_indented(out: &mut String, ls: &Vec<String>)
    ensures
        final(out)@ == old(out)@ + indented(ls.deep_view()),
{
    let ghost start = out@;
    let mut i: usize = 0;
    while i < ls.len()
        invariant
            i <= ls@.len(),
            out@ == start + indented(ls.deep_view().take(i as int)),
        decreases ls.len() - i,
    {
        proof {
            assert(ls.deep_view().take(i + 1).drop_last() =~= ls.deep_view().take(i as int));
            assert(ls.deep_view().take(i + 1).last() == ls@[i as int]@);
        }
        out.append("      ");
        out.append(ls[i].as_str());
        out.append("\n");
        i = i + 1;
    }
    assert(ls.deep_view().take(ls@.len() as int) =~= ls.deep_view());
}

/// The lines of `s` (`str::lines`).
pub fn lines_of(s: &str) -> (r: Vec<String>)
    ensures
        r.deep_view() == text_lines(s@),
{
    let pieces = crate::text::split_str(s, '\n');
    proof {
        crate::text::lemma_split_on_nonempty(s@, '\n');
    }
    let n = pieces.len();
    let last_empty = pieces[n - 1].unicode_len() == 0;
    let m = if last_empty {
        n - 1
    } else {
        n
    };
    let ghost kept = if last_empty {
        pieces.deep_view().drop_last()
    } else {
        pieces.deep_view()
    };
    assert(pieces.deep_view()[n - 1] == pieces@[n - 1]@);
    assert(kept.len() == m);
    let ghost f = |l: Seq<char>| if l.len() > 0 && l.last() == '\r' {
        l.drop_last()
    } else {
        l
    };
    let mut r: Vec<String> = Vec::new();
    let mut i: usize = 0;
    while i < m
        invariant
            i <= m,
            m <= pieces@.len(),
            kept.len() == m,
            forall|k: int| 0 <= k < m ==> kept[k] == pieces@[k]@,
            f == (|l: Seq<char>| if l.len() > 0 && l.last() == '\r' {
                l.drop_last()
            } else {
                l
            }),
            r.deep_view() == kept.take(i as int).map_values(f),
        decreases m - i,
    {
        let line = pieces[i].as_str();
        let len = line.unicode_len();
        let t = if len > 0 && line.get_char(len - 1) == '\r' {
            line.substring_char(0, len - 1)
        } else {
            line
        };
        proof {
            assert(line@.len() > 0 ==> line@.last() == line@[len - 1]);
            if len > 0 && line@.last() == '\r' {
                assert(t@ =~= line@.drop_last());
            }
        }
        let ghost before = r.deep_view();
        r.push(string_of(t));
        assert(r.deep_view() =~= before.push(f(kept[i as int])));
        assert(kept.take(i + 1).map_values(f) =~= kept.take(i as int).map_values(f).push(f(kept[i as int])));
        i = i + 1;
    }
    assert(kept.take(m as int) =~= kept);
    r
}

impl InstalledPackageData {
    /// The entry as text: name, version, author, when it was written, and
    /// its relations, indented, when it has any.
    pub fn to_string(&self) -> (r: String)
        ensures
            r@ == installed_text(self.deep_view()),
    {
        let mut out = string_of("  ");
        let label = "Name".bold();
        out.append(label.as_str());
        out.append(": ");
        let name = self.info.about.package.name.cyan();
        out.append(name.as_str());
        out.append("\n    ");
        let label = "Version".bold();
        out.append(label.as_str());
        out.append(": ");
        let v = self.info.about.package.version.to_string();
        out.append(v.as_str());
        out.append("\n    ");
        let label = "Author".bold();
        out.append(label.as_str());
        out.append(": ");
        out.append(self.info.about.author.name.as_str());
        out.append(" <");
        out.append(self.info.about.author.email.as_str());
        out.append(">\n    ");
        let label = "Last Modified".bold();
        out.append(label.as_str());
        out.append(": ");
        out.append(self.last_modified.as_str());
        out.append("\n");
        let ghost head = out@;
        proof {
            let r = &self.info.relation;
            assert(r.depend.deep_view().len() == r.depend@.len());
            assert(r.depend_cmds.deep_view().len() == r.depend_cmds@.len());
            assert(r.suggests.deep_view().len() == r.suggests@.len());
            assert(r.recommends.deep_view().len() == r.recommends@.len());
            assert(r.conflicts.deep_view().len() == r.conflicts@.len());
            assert(r.virtuals.deep_view().len() == r.virtuals@.len());
            assert(r.provide_cmds.deep_view().len() == r.provide_cmds@.len());
        }
        if !self.info.relation.is_empty() {
            out.append("    ");
            let label = "Relations:".bold();
            out.append(label.as_str());
            out.append("\n");
            let rel = self.info.relation.to_string();
            let ls = lines_of(rel.as_str());
            push_indented(&mut out, &ls);
        }
        proof {
            reveal_strlit("\n    ");
            reveal_strlit(">\n    ");
            reveal_strlit("\n");
            reveal_strlit("    ");
            reveal_strlit(">\n");
        }
        proof {
            reveal(installed_text);
        }
        assert(out@ =~= installed_text(self.deep_view()));
        out
    }
}

/// The text of a list of installed packages: when it was written, then each
/// package followed by an empty line, or a note that there is none.
pub open spec fn list_text(last_modified: Seq<char>, entries: Seq<Seq<char>>) -> Seq<char> {
    ("\x1b[1m"@ + ("\x1b[32m"@ + "Last Modified"@ + reset_seq()) + reset_seq()) + ": "@ + last_modified + "\n"@
        + ("\x1b[1m"@ + ("\x1b[36m"@ + "Packages"@ + reset_seq()) + reset_seq()) + ":\n"@ + if entries.len() == 0 {
        "  No packages installed in this scope.\n"@
    } else {
        entry_blocks(entries)
    }
}

/// Each text of `entries` followed by a line feed.
pub open spec fn entry_blocks(entries: Seq<Seq<char>>) -> Seq<char>
    decreases entries.len(),
{
    if entries.len() == 0 {
        Seq::empty()
    } else {
        entry_blocks(entries.drop_last()) + entries.last() + "\n"@
    }
}

/// The texts of the installed packages `s`.
pub open spec fn installed_texts(s: Seq<InstalledView>) -> Seq<Seq<char>> {
    s.map_values(|x: InstalledView| installed_text(x))
}

impl PackageListData {
    /// The list as text: when it was written, then each installed package.
    pub fn to_string(&self) -> (r: String)
        ensures
            r@ == list_text(self.last_modified@, installed_texts(self.installed_packages.deep_view())),
    {
        let g = "Last Modified".green();
        let mut out = g.bold();
        out.append(": ");
        out.append(self.last_modified.as_str());
        out.append("\n");
        let c = "Packages".cyan();
        let b = c.bold();
        out.append(b.as_str());
        out.append(":\n");
        let ghost texts = installed_texts(self.installed_packages.deep_view());
        if self.installed_packages.len() == 0 {
            out.append("  No packages installed in this scope.\n");
        } else {
            let ghost start = out@;
            let mut i: usize = 0;
            while i < self.installed_packages.len()
                invariant
                    i <= self.installed_packages@.len(),
                    texts == installed_texts(self.installed_packages.deep_view()),
                    out@ == start + entry_blocks(texts.take(i as int)),
                decreases self.installed_packages.len() - i,
            {
                proof {
                    assert(texts.take(i + 1).drop_last() =~= texts.take(i as int));
                    assert(texts.take(i + 1).last() == texts[i as int]);
                }
                let t = self.installed_packages[i].to_string();
                out.append(t.as_str());
                out.append("\n");
                i = i + 1;
            }
            assert(texts.take(texts.len() as int) =~= texts);
        }
        out
    }
}

} // verus!

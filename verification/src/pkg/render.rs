//! The text in which package metadata is shown to the user.
use crate::color::{reset_seq, Colorize, StyleModifier};
use crate::pkg::{
    AuthorAboutData, Mode, PackageData, PackageRange, PackageRangeView, PackageVersion, PackageVersionView,
    PackageView, RelationData, RelationView,
};
use crate::text::{concat, string_of, trim, trim_str};
use crate::version::{join, join_strings, range_text};
use vstd::prelude::*;

verus! {

/// `s` in bold.
pub open spec fn bold(s: Seq<char>) -> Seq<char> {
    "\x1b[1m"@ + s + reset_seq()
}

/// `s` after the escape sequence `open`, then the reset sequence.
pub open spec fn colored(open: Seq<char>, s: Seq<char>) -> Seq<char> {
    open + s + reset_seq()
}

/// `name (range)`.
pub open spec fn range_entry(p: PackageRangeView) -> Seq<char> {
    p.name + " ("@ + range_text(p.range) + ")"@
}

/// `name (version)`.
pub open spec fn version_entry(p: PackageVersionView) -> Seq<char> {
    p.name + " ("@ + p.version + ")"@
}

/// A dependency group in the colour `open`: its one entry, or its
/// alternatives joined by ` | ` in brackets.
pub open spec fn group_text(g: Seq<PackageRangeView>, open: Seq<char>) -> Seq<char> {
    if g.len() == 1 {
        colored(open, range_entry(g[0]))
    } else {
        "("@ + colored(open, join(g.map_values(|p: PackageRangeView| range_entry(p)), " | "@)) + ")"@
    }
}

/// One line `  - item` for each item.
pub open spec fn item_lines(items: Seq<Seq<char>>) -> Seq<char>
    decreases items.len(),
{
    if items.len() == 0 {
        Seq::empty()
    } else {
        item_lines(items.drop_last()) + "  - "@ + items.last() + "\n"@
    }
}

/// A titled list: nothing when there is no item.
pub open spec fn section(title: Seq<char>, items: Seq<Seq<char>>) -> Seq<char> {
    if items.len() == 0 {
        Seq::empty()
    } else {
        "\n"@ + bold(title) + "\n"@ + item_lines(items)
    }
}

/// The groups `gs`, each in the colour `open`.
pub open spec fn group_items(gs: Seq<Seq<PackageRangeView>>, open: Seq<char>) -> Seq<Seq<char>> {
    gs.map_values(|g: Seq<PackageRangeView>| group_text(g, open))
}

/// The texts `cs`, each in the colour `open`.
pub open spec fn colored_items(cs: Seq<Seq<char>>, open: Seq<char>) -> Seq<Seq<char>> {
    cs.map_values(|c: Seq<char>| colored(open, c))
}

/// The text of the relations of a package: one titled list for each kind of
/// relation that has entries.
pub open spec fn relation_text(r: RelationView) -> Seq<char> {
    section("Dependencies:"@, group_items(r.depend, "\x1b[32m"@)) + section(
        "Necessary Commands:"@,
        colored_items(r.depend_cmds, "\x1b[32m"@),
    ) + section("Suggests:"@, group_items(r.suggests, "\x1b[33m"@)) + section(
        "Recommends:"@,
        group_items(r.recommends, "\x1b[34m"@),
    ) + section(
        "Conflicts:"@,
        colored_items(r.conflicts.map_values(|c: PackageRangeView| range_entry(c)), "\x1b[31m"@),
    ) + section(
        "Virtual Packages:"@,
        colored_items(r.virtuals.map_values(|v: PackageVersionView| version_entry(v)), "\x1b[35m"@),
    ) + section("Providing Commands:"@, colored_items(r.provide_cmds, "\x1b[32m"@))
}

impl PackageRange {
    /// `name (range)`.
    pub fn to_string(&self) -> (r: String)
        ensures
            r@ == range_entry(self.deep_view()),
    {
        let mut r = concat(self.name.as_str(), " (");
        let range = self.range.to_string();
        r.append(range.as_str());
        r.append(")");
        r
    }
}

impl PackageVersion {
    /// `name (version)`.
    pub fn to_string(&self) -> (r: String)
        ensures
            r@ == version_entry(self.deep_view()),
    {
        let mut r = concat(self.name.as_str(), " (");
        let version = self.version.to_string();
        r.append(version.as_str());
        r.append(")");
        r
    }
}

impl AuthorAboutData {
    /// `name <email>`.
    pub fn to_string(&self) -> (r: String)
        ensures
            r@ == self.name@ + " <"@ + self.email@ + ">"@,
    {
        let mut r = concat(self.name.as_str(), " <");
        r.append(self.email.as_str());
        r.append(">");
        r
    }
}

/// The group `g` in the colour `open`.
fn group_string(g: &Vec<PackageRange>, open: &str) -> (r: String)
    ensures
        r@ == group_text(g.deep_view(), open@),
{
    if g.len() == 1 {
        let e = g[0].to_string();
        let mut r = concat(open, e.as_str());
        r.append("\x1b[0m");
        r
    } else {
        let mut alts: Vec<String> = Vec::new();
        let mut i: usize = 0;
        while i < g.len()
            invariant
                i <= g@.len(),
                alts.deep_view() == g.deep_view().take(i as int).map_values(|p: PackageRangeView| range_entry(p)),
            decreases g.len() - i,
        {
            let ghost before = alts.deep_view();
            alts.push(g[i].to_string());
            proof {
                assert(alts.deep_view() =~= before.push(range_entry(g.deep_view()[i as int])));
                assert(g.deep_view().take(i + 1).map_values(|p: PackageRangeView| range_entry(p)) =~= g.deep_view().take(
                    i as int,
                ).map_values(|p: PackageRangeView| range_entry(p)).push(range_entry(g.deep_view()[i as int])));
            }
            i = i + 1;
        }
        assert(g.deep_view().take(g@.len() as int) =~= g.deep_view());
        let joined = join_strings(&alts, " | ");
        let mut r = string_of("(");
        r.append(open);
        r.append(joined.as_str());
        r.append("\x1b[0m)");
        proof {
            reveal_strlit("\x1b[0m)");
            reveal_strlit("\x1b[0m");
            reveal_strlit(")");
            assert("\x1b[0m)"@ =~= reset_seq() + ")"@);
        }
        r
    }
}

/// Appends the titled list of `items` to `out`; nothing when there is no item.
fn push_section(out: &mut String, title: &str, items: &Vec<String>)
    ensures
        final(out)@ == old(out)@ + section(title@, items.deep_view()),
{
    if items.len() == 0 {
        assert(old(out)@ + section(title@, items.deep_view()) =~= old(out)@);
        return ;
    }
    out.append("\n");
    let b = title.bold();
    out.append(b.as_str());
    out.append("\n");
    let ghost start = out@;
    let mut i: usize = 0;
    while i < items.len()
        invariant
            i <= items@.len(),
            out@ == start + item_lines(items.deep_view().take(i as int)),
        decreases items.len() - i,
    {
        proof {
            assert(items.deep_view().take(i + 1).drop_last() =~= items.deep_view().take(i as int));
            assert(items.deep_view().take(i + 1).last() == items@[i as int]@);
        }
        out.append("  - ");
        out.append(items[i].as_str());
        out.append("\n");
        i = i + 1;
    }
    assert(items.deep_view().take(items@.len() as int) =~= items.deep_view());
}

/// The groups `gs`, each as text in the colour `open`.
fn group_strings(gs: &Vec<Vec<PackageRange>>, open: &str) -> (r: Vec<String>)
    ensures
        r.deep_view() == group_items(gs.deep_view(), open@),
{
    let mut r: Vec<String> = Vec::new();
    let mut i: usize = 0;
    while i < gs.len()
        invariant
            i <= gs@.len(),
            r.deep_view() == group_items(gs.deep_view().take(i as int), open@),
        decreases gs.len() - i,
    {
        let ghost before = r.deep_view();
        r.push(group_string(&gs[i], open));
        proof {
            assert(r.deep_view() =~= before.push(group_text(gs.deep_view()[i as int], open@)));
            assert(group_items(gs.deep_view().take(i + 1), open@) =~= group_items(gs.deep_view().take(i as int), open@).push(
                group_text(gs.deep_view()[i as int], open@),
            ));
        }
        i = i + 1;
    }
    assert(gs.deep_view().take(gs@.len() as int) =~= gs.deep_view());
    r
}

/// The texts `cs`, each in the colour `open`.
fn colored_strings(cs: &Vec<String>, open: &str) -> (r: Vec<String>)
    ensures
        r.deep_view() == colored_items(cs.deep_view(), open@),
{
    let mut r: Vec<String> = Vec::new();
    let mut i: usize = 0;
    while i < cs.len()
        invariant
            i <= cs@.len(),
            r.deep_view() == colored_items(cs.deep_view().take(i as int), open@),
        decreases cs.len() - i,
    {
        let ghost before = r.deep_view();
        let mut t = concat(open, cs[i].as_str());
        t.append("\x1b[0m");
        r.push(t);
        proof {
            assert(r.deep_view() =~= before.push(colored(open@, cs@[i as int]@)));
            assert(colored_items(cs.deep_view().take(i + 1), open@) =~= colored_items(cs.deep_view().take(i as int), open@).push(
                colored(open@, cs@[i as int]@),
            ));
        }
        i = i + 1;
    }
    assert(cs.deep_view().take(cs@.len() as int) =~= cs.deep_view());
    r
}

/// The entries `name (range)` of the ranges `rs`.
fn range_strings(rs: &Vec<PackageRange>) -> (r: Vec<String>)
    ensures
        r.deep_view() == rs.deep_view().map_values(|c: PackageRangeView| range_entry(c)),
{
    let mut r: Vec<String> = Vec::new();
    let mut i: usize = 0;
    while i < rs.len()
        invariant
            i <= rs@.len(),
            r.deep_view() == rs.deep_view().take(i as int).map_values(|c: PackageRangeView| range_entry(c)),
        decreases rs.len() - i,
    {
        let ghost before = r.deep_view();
        r.push(rs[i].to_string());
        proof {
            assert(r.deep_view() =~= before.push(range_entry(rs.deep_view()[i as int])));
            assert(rs.deep_view().take(i + 1).map_values(|c: PackageRangeView| range_entry(c)) =~= rs.deep_view().take(
                i as int,
            ).map_values(|c: PackageRangeView| range_entry(c)).push(range_entry(rs.deep_view()[i as int])));
        }
        i = i + 1;
    }
    assert(rs.deep_view().take(rs@.len() as int) =~= rs.deep_view());
    r
}

/// The entries `name (version)` of the versions `vs`.
fn version_strings(vs: &Vec<PackageVersion>) -> (r: Vec<String>)
    ensures
        r.deep_view() == vs.deep_view().map_values(|v: PackageVersionView| version_entry(v)),
{
    let mut r: Vec<String> = Vec::new();
    let mut i: usize = 0;
    while i < vs.len()
        invariant
            i <= vs@.len(),
            r.deep_view() == vs.deep_view().take(i as int).map_values(|v: PackageVersionView| version_entry(v)),
        decreases vs.len() - i,
    {
        let ghost before = r.deep_view();
        r.push(vs[i].to_string());
        proof {
            assert(r.deep_view() =~= before.push(version_entry(vs.deep_view()[i as int])));
            assert(vs.deep_view().take(i + 1).map_values(|v: PackageVersionView| version_entry(v)) =~= vs.deep_view().take(
                i as int,
            ).map_values(|v: PackageVersionView| version_entry(v)).push(version_entry(vs.deep_view()[i as int])));
        }
        i = i + 1;
    }
    assert(vs.deep_view().take(vs@.len() as int) =~= vs.deep_view());
    r
}

impl RelationData {
    /// The relations as titled lists: dependencies, necessary commands,
    /// suggestions, recommendations, conflicts, virtual packages and provided
    /// commands, each left out when it has no entry.
    pub fn to_string(&self) -> (r: String)
        ensures
            r@ == relation_text(self.deep_view()),
    {
        let mut out = String::new();
        let items = group_strings(&self.depend, "\x1b[32m");
        push_section(&mut out, "Dependencies:", &items);
        let items = colored_strings(&self.depend_cmds, "\x1b[32m");
        push_section(&mut out, "Necessary Commands:", &items);
        let items = group_strings(&self.suggests, "\x1b[33m");
        push_section(&mut out, "Suggests:", &items);
        let items = group_strings(&self.recommends, "\x1b[34m");
        push_section(&mut out, "Recommends:", &items);
        let entries = range_strings(&self.conflicts);
        let items = colored_strings(&entries, "\x1b[31m");
        push_section(&mut out, "Conflicts:", &items);
        let entries = version_strings(&self.virtuals);
        let items = colored_strings(&entries, "\x1b[35m");
        push_section(&mut out, "Virtual Packages:", &items);
        let items = colored_strings(&self.provide_cmds, "\x1b[32m");
        push_section(&mut out, "Providing Commands:", &items);
        assert(out@ =~= relation_text(self.deep_view()));
        out
    }
}

/// The first lines of the text of the package `p`: name, version, and the
/// description when there is one.
pub open spec fn header_text(p: PackageView) -> Seq<char> {
    bold("Package:"@) + " "@ + colored("\x1b[36m"@, p.about.package.name) + "\n"@ + bold("Version:"@) + " "@
        + p.about.package.version + "\n"@ + if p.about.package.description.len() == 0 {
        Seq::empty()
    } else {
        bold("Description:"@) + " "@ + p.about.package.description + "\n"@
    }
}

/// The author line of the text of the package `p`.
pub open spec fn author_line(p: PackageView) -> Seq<char> {
    bold("Author:"@) + " "@ + trim(p.about.author.name) + " <"@ + p.about.author.email + ">\n"@
}

/// The architectures line of the text of the package `p`: `any` in italics
/// when none is listed, else the architectures joined by `, ` in italics.
pub open spec fn architectures_line(p: PackageView) -> Seq<char> {
    bold("Architectures:"@) + " "@ + (if p.architecture.len() == 0 {
        "\x1b[3m"@ + "any"@ + reset_seq()
    } else {
        "\x1b[3m"@ + join(p.architecture, ", "@) + reset_seq()
    }) + "\n"@
}

/// The text of the installation mode `m`.
pub open spec fn mode_text(m: Mode) -> Seq<char> {
    match m {
        Mode::Local => "local"@,
        Mode::Global => "global"@,
        Mode::Any => "any (local & global)"@,
    }
}

/// The text of the package `p`: name, version, description when there is
/// one, author, architectures, installation mode, then the relations.
pub open spec fn package_text(p: PackageView) -> Seq<char> {
    header_text(p) + author_line(p) + architectures_line(p) + bold("Installation Mode:"@) + " "@ + mode_text(p.mode)
        + "\n"@ + relation_text(p.relation)
}

fn push_header(out: &mut String, p: &PackageData)
    ensures
        final(out)@ == old(out)@ + header_text(p.deep_view()),
{
    let label = "Package:".bold();
    out.append(label.as_str());
    out.append(" ");
    let name = p.about.package.name.cyan();
    out.append(name.as_str());
    out.append("\n");
    let label = "Version:".bold();
    out.append(label.as_str());
    out.append(" ");
    let version = p.about.package.version.to_string();
    out.append(version.as_str());
    out.append("\n");
    if p.about.package.description.unicode_len() > 0 {
        let label = "Description:".bold();
        out.append(label.as_str());
        out.append(" ");
        out.append(p.about.package.description.as_str());
        out.append("\n");
    }
    assert(final(out)@ =~= old(out)@ + header_text(p.deep_view()));
}

fn push_author_line(out: &mut String, p: &PackageData)
    ensures
        final(out)@ == old(out)@ + author_line(p.deep_view()),
{
    let label = "Author:".bold();
    out.append(label.as_str());
    out.append(" ");
    out.append(trim_str(p.about.author.name.as_str()));
    out.append(" <");
    out.append(p.about.author.email.as_str());
    out.append(">\n");
    assert(final(out)@ =~= old(out)@ + author_line(p.deep_view()));
}

fn push_architectures_line(out: &mut String, p: &PackageData)
    ensures
        final(out)@ == old(out)@ + architectures_line(p.deep_view()),
{
    let label = "Architectures:".bold();
    out.append(label.as_str());
    out.append(" ");
    assert(p.architecture.deep_view().len() == p.architecture@.len());
    if p.architecture.len() == 0 {
        let any = "any".italic();
        out.append(any.as_str());
    } else {
        let joined = join_strings(&p.architecture, ", ");
        let archs = joined.italic();
        out.append(archs.as_str());
    }
    out.append("\n");
    assert(final(out)@ =~= old(out)@ + architectures_line(p.deep_view()));
}

impl PackageData {
    /// The package as text: name, version, description when there is one,
    /// author, architectures (`any` when none is listed), installation mode,
    /// then the relations.
    pub fn to_string(&self) -> (r: String)
        ensures
            r@ == package_text(self.deep_view()),
    {
        let mut out = String::new();
        push_header(&mut out, self);
        push_author_line(&mut out, self);
        push_architectures_line(&mut out, self);
        let label = "Installation Mode:".bold();
        out.append(label.as_str());
        out.append(" ");
        let mode = self.mode.to_string();
        out.append(mode.as_str());
        out.append("\n");
        let relation = self.relation.to_string();
        out.append(relation.as_str());
        assert(out@ =~= package_text(self.deep_view()));
        out
    }
}

impl crate::pkg::PackageAboutData {
    /// The package details as text: the name in cyan and the version in
    /// brackets, then the description laid out from Markdown on the next
    /// line, indented, when there is one.
    pub fn to_string(&self) -> (r: String)
        ensures
            self.description@.len() == 0 ==> r@ == colored("\x1b[36m"@, self.name@) + " ("@ + self.version@ + ")"@,
            self.description@.len() > 0 ==> exists|m: Seq<char>|
                r@ == colored("\x1b[36m"@, self.name@) + " ("@ + self.version@ + ")"@ + "\n  "@ + m,
    {
        let mut out = self.name.cyan();
        out.append(" (");
        let v = self.version.to_string();
        out.append(v.as_str());
        out.append(")");
        let ghost head = out@;
        assert(head =~= colored("\x1b[36m"@, self.name@) + " ("@ + self.version@ + ")"@);
        if self.description.unicode_len() > 0 {
            out.append("\n  ");
            let md = crate::shell::markdown(self.description.as_str());
            out.append(md.as_str());
            assert(out@ =~= colored("\x1b[36m"@, self.name@) + " ("@ + self.version@ + ")"@ + "\n  "@ + md@);
        }
        out
    }
}

impl crate::pkg::AboutData {
    /// The author and the package details as two labelled lines.
    pub fn to_string(&self) -> (r: String)
        ensures
            exists|p: Seq<char>|
                r@ == bold("Author:"@) + " "@ + self.author.name@ + " <"@ + self.author.email@ + ">"@ + "\n"@ + bold(
                    "Package:"@,
                ) + " "@ + p + "\n"@,
    {
        let mut out = "Author:".bold();
        out.append(" ");
        let a = self.author.to_string();
        out.append(a.as_str());
        out.append("\n");
        let label = "Package:".bold();
        out.append(label.as_str());
        out.append(" ");
        let ghost head = out@;
        let p = self.package.to_string();
        out.append(p.as_str());
        out.append("\n");
        assert(out@ =~= bold("Author:"@) + " "@ + self.author.name@ + " <"@ + self.author.email@ + ">"@ + "\n"@
            + bold("Package:"@) + " "@ + p@ + "\n"@);
        out
    }
}

} // verus!

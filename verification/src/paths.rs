//! Where ipak keeps its files: the package list, the package directories,
//! the lock and task files, for the whole system and for one user.
pub mod global;
pub mod local;

use crate::text::{concat, string_of};
use vstd::prelude::*;

verus! {

/// `part` appended to the path `base` as a further component: `part` itself
/// when it is absolute; else `base` and `part` joined by one `/` (none when
/// `base` is empty or already ends with `/`).
pub open spec fn path_join(base: Seq<char>, part: Seq<char>) -> Seq<char> {
    if part.len() > 0 && part[0] == '/' {
        part
    } else if base.len() == 0 || base.last() == '/' {
        base + part
    } else {
        base + "/"@ + part
    }
}

/// The path `base` with the component `part` appended.
pub fn join_path(base: &str, part: &str) -> (r: String)
    ensures
        r@ == path_join(base@, part@),
{
    let pn = part.unicode_len();
    if pn > 0 && part.get_char(0) == '/' {
        return string_of(part);
    }
    let bn = base.unicode_len();
    if bn == 0 || base.get_char(bn - 1) == '/' {
        concat(base, part)
    } else {
        let mut r = concat(base, "/");
        r.append(part);
        r
    }
}

/// The position of the last `/` of `p`, or `-1` when there is none.
pub open spec fn last_separator(p: Seq<char>) -> int
    decreases p.len(),
{
    if p.len() == 0 {
        -1
    } else if p.last() == '/' {
        p.len() - 1
    } else {
        last_separator(p.drop_last())
    }
}

/// The directory above the path `p` (absolute, without a trailing `/`): `p`
/// up to its last `/`, or `/` when that is the first character; none for
/// `/` itself and for the empty path; the empty path for a bare name.
pub open spec fn parent_path(p: Seq<char>) -> Option<Seq<char>> {
    let i = last_separator(p);
    if p.len() == 0 || p == "/"@ {
        None
    } else if i < 0 {
        Some(Seq::empty())
    } else if i == 0 {
        Some("/"@)
    } else {
        Some(p.take(i))
    }
}

proof fn lemma_last_separator(p: Seq<char>)
    ensures
        -1 <= last_separator(p) < p.len(),
        last_separator(p) >= 0 ==> p[last_separator(p)] == '/',
        forall|k: int| last_separator(p) < k < p.len() ==> p[k] != '/',
    decreases p.len(),
{
    if p.len() > 0 && p.last() != '/' {
        lemma_last_separator(p.drop_last());
        assert forall|k: int| last_separator(p) < k < p.len() implies p[k] != '/' by {
            if k < p.len() - 1 {
                assert(p[k] == p.drop_last()[k]);
            }
        }
    }
}

/// The directory above `p`, as the search for a project's metadata walks
/// upwards from the current directory (see `parent_path`).
pub fn parent_dir(p: &str) -> (r: Option<String>)
    ensures
        match parent_path(p@) {
            Some(q) => r matches Some(s) && s@ == q,
            None => r is None,
        },
{
    let cs = crate::text::chars_of(p);
    let n = cs.len();
    proof {
        reveal_strlit("/");
        assert("/"@ =~= seq!['/']);
        lemma_last_separator(p@);
    }
    if n == 0 || (n == 1 && cs[0] == '/') {
        assert(n == 1 ==> p@ =~= "/"@);
        return None;
    }
    assert(p@ != "/"@) by {
        if p@ == "/"@ {
            assert(p@[0] == '/');
        }
    }
    let mut i: usize = n;
    while i > 0 && cs[i - 1] != '/'
        invariant
            cs@ == p@,
            n == p@.len(),
            i <= n,
            forall|k: int| i <= k < n ==> p@[k] != '/',
        decreases i,
    {
        i = i - 1;
    }
    // `i - 1` is now the position of the last `/`, or `i` is 0 when there is none
    if i == 0 {
        assert(last_separator(p@) < 0) by {
            if last_separator(p@) >= 0 {
                assert(p@[last_separator(p@)] == '/');
            }
        }
        Some(String::new())
    } else {
        assert(last_separator(p@) == i - 1) by {
            if last_separator(p@) != i - 1 {
                assert(p@[i - 1] == '/');
            }
        }
        if i == 1 {
            Some(string_of("/"))
        } else {
            let mut r = String::new();
            let mut k: usize = 0;
            while k < i - 1
                invariant
                    cs@ == p@,
                    n == p@.len(),
                    1 < i <= n,
                    k <= i - 1,
                    r@ == p@.take(k as int),
                decreases i - 1 - k,
            {
                crate::text::push_char(&mut r, cs[k]);
                k = k + 1;
                assert(r@ =~= p@.take(k as int));
            }
            Some(r)
        }
    }
}

/// The home directory of the user `username` when `HOME` is not set:
/// `/home/username`.
pub fn fallback_home(username: &str) -> (r: String)
    ensures
        r@ == "/home/"@ + username@,
{
    concat("/home/", username)
}

/// The directory where the package `name` is installed in the scope `mode`:
/// under the packages directory of the system, or of the user whose home
/// directory is `home`.
pub fn package_install_dir(mode: crate::project::ExecMode, home: &str, name: &str) -> (r: String)
    ensures
        r@ == match mode {
            crate::project::ExecMode::Local => path_join(local::packages_dir(home@), name@),
            crate::project::ExecMode::Global => path_join(global::packages_dir(), name@),
        },
{
    match mode {
        crate::project::ExecMode::Local => {
            let dir = local::packages_dirpath(home);
            join_path(dir.as_str(), name)
        },
        crate::project::ExecMode::Global => {
            let dir = global::packages_dirpath();
            join_path(dir.as_str(), name)
        },
    }
}

/// The metadata file of the project in the directory `project_dir`:
/// `ipak/project.yaml` in it.
pub fn get_path(project_dir: &str) -> (r: String)
    ensures
        r@ == path_join(project_dir@, "ipak/project.yaml"@),
{
    join_path(project_dir, "ipak/project.yaml")
}

} // verus!

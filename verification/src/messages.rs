//! Messages shown to the user, such as the manual, with the details of this
//! build of ipak filled in.
use crate::text::{chars_of, push_char};
use vstd::prelude::*;

verus! {

/// `s` with every occurrence of `pat` (taken from left to right, without
/// overlap) replaced by `with` (what `str::replace` returns).
pub open spec fn replace_all(s: Seq<char>, pat: Seq<char>, with: Seq<char>) -> Seq<char>
    recommends
        pat.len() > 0,
    decreases s.len(),
{
    if pat.len() == 0 || s.len() < pat.len() {
        s
    } else if s.take(pat.len() as int) == pat {
        with + replace_all(s.skip(pat.len() as int), pat, with)
    } else {
        seq![s[0]] + replace_all(s.drop_first(), pat, with)
    }
}

/// `s` with every occurrence of the non-empty `pat` replaced by `with`.
pub fn replace_text(s: &str, pat: &str, with: &str) -> (r: String)
    requires
        pat@.len() > 0,
    ensures
        r@ == replace_all(s@, pat@, with@),
{
    let a = chars_of(s);
    let p = chars_of(pat);
    let w = chars_of(with);
    let mut r = String::new();
    let mut i: usize = 0;
    assert(a@.skip(0) =~= a@);
    while i < a.len()
        invariant
            a@ == s@,
            p@ == pat@,
            w@ == with@,
            p@.len() > 0,
            i <= a@.len(),
            r@ + replace_all(a@.skip(i as int), p@, w@) == replace_all(s@, pat@, with@),
        decreases a.len() - i,
    {
        let ghost rest = a@.skip(i as int);
        let mut matches = p.len() <= a.len() - i;
        if matches {
            let mut k: usize = 0;
            while k < p.len()
                invariant
                    i < a.len(),
                    p.len() <= a.len() - i,
                    k <= p@.len(),
                    matches == forall|m: int| 0 <= m < k ==> a@[i + m] == p@[m],
                decreases p.len() - k,
            {
                if a[i + k] != p[k] {
                    matches = false;
                }
                k = k + 1;
            }
            proof {
                if matches {
                    assert(rest.take(p@.len() as int) =~= p@);
                } else {
                    let m = choose|m: int| 0 <= m < p@.len() && a@[i + m] != p@[m];
                    assert(rest.take(p@.len() as int)[m] == a@[i + m]);
                }
            }
        }
        if matches {
            let mut k: usize = 0;
            let ghost before = r@;
            while k < w.len()
                invariant
                    k <= w@.len(),
                    r@ == before + w@.take(k as int),
                decreases w.len() - k,
            {
                push_char(&mut r, w[k]);
                assert(w@.take(k + 1) =~= w@.take(k as int).push(w@[k as int]));
                k = k + 1;
            }
            assert(w@.take(w@.len() as int) =~= w@);
            assert(rest.skip(p@.len() as int) =~= a@.skip(i + p@.len()));
            i = i + p.len();
        } else {
            let ghost before = r@;
            push_char(&mut r, a[i]);
            assert(rest.drop_first() =~= a@.skip(i + 1));
            assert(rest[0] == a@[i as int]);
            i = i + 1;
        }
    }
    assert(a@.skip(a@.len() as int) =~= Seq::<char>::empty());
    r
}

/// The details of this build of ipak.
#[derive(Debug)]
pub struct CargoPackageInfo {
    pub name: String,
    pub version: String,
    pub architecture: String,
}

/// `text` with `{name}`, `{version}` and `{architecture}` replaced, in that
/// order, by the details `info`.
pub fn insert_info(text: &str, info: &CargoPackageInfo) -> (r: String)
    ensures
        r@ == replace_all(
            replace_all(replace_all(text@, "{name}"@, info.name@), "{version}"@, info.version@),
            "{architecture}"@,
            info.architecture@,
        ),
{
    proof {
        reveal_strlit("{name}");
        reveal_strlit("{version}");
        reveal_strlit("{architecture}");
    }
    let a = replace_text(text, "{name}", info.name.as_str());
    let b = replace_text(a.as_str(), "{version}", info.version.as_str());
    replace_text(b.as_str(), "{architecture}", info.architecture.as_str())
}

/// The manual `manual_md` (Markdown) with the details `info` filled in, laid
/// out for the terminal.
pub fn manual(manual_md: &str, info: &CargoPackageInfo) -> String {
    let text = insert_info(manual_md, info);
    crate::shell::markdown(text.as_str())
}

} // verus!

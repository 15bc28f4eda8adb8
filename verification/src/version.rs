//! Versions (`1.2.3`, `1.2.2-build-4`, ...) and version ranges (`>= 1.0, < 2.0`).
mod ordering;

use crate::text::{
    chars_of, concat, is_ascii_digit, is_digit_char, split_on, split_str, split_whitespace_str, str_eq,
    string_of, trim, trim_end, trim_start, trim_str, ws_tokens,
};
use vstd::prelude::*;

verus! {

/// Length of the longest prefix of `s` whose characters are all digits
/// (`digit == true`) or all non-digits (`digit == false`).
pub open spec fn run_len(s: Seq<char>, digit: bool) -> nat
    decreases s.len(),
{
    if s.len() > 0 && is_ascii_digit(s[0]) == digit {
        1 + run_len(s.drop_first(), digit)
    } else {
        0
    }
}

/// The run at the start of `s` is no longer than `s`, and at least one
/// character long when `s` starts with a character of its kind.
pub proof fn lemma_run_len_bounds(s: Seq<char>, digit: bool)
    ensures
        run_len(s, digit) <= s.len(),
        s.len() > 0 && is_ascii_digit(s[0]) == digit ==> run_len(s, digit) >= 1,
    decreases s.len(),
{
    if s.len() > 0 && is_ascii_digit(s[0]) == digit {
        lemma_run_len_bounds(s.drop_first(), digit);
    }
}

/// The maximal runs of `s`: each run is a non-empty stretch of digits or of
/// non-digits, and neighbouring runs differ in kind.
pub open spec fn segments(s: Seq<char>) -> Seq<Seq<char>>
    decreases s.len(),
{
    if s.len() == 0 {
        Seq::empty()
    } else {
        let n = run_len(s, is_ascii_digit(s[0]));
        proof {
            lemma_run_len_bounds(s, is_ascii_digit(s[0]));
        }
        seq![s.take(n as int)] + segments(s.skip(n as int))
    }
}

/// The decimal value of a string of digits.
pub open spec fn digits_value(d: Seq<char>) -> nat
    decreases d.len(),
{
    if d.len() == 0 {
        0
    } else {
        digits_value(d.drop_last()) * 10 + ((d.last() as int) - ('0' as int)) as nat
    }
}

/// Whether a run is a run of digits.
pub open spec fn is_number_segment(g: Seq<char>) -> bool {
    g.len() > 0 && is_ascii_digit(g[0])
}

/// The numbers of a version: the value of each run of digits, in order,
/// leaving out a run whose value does not fit in a `u32`.
pub open spec fn nums_in(segs: Seq<Seq<char>>) -> Seq<u32>
    decreases segs.len(),
{
    if segs.len() == 0 {
        Seq::empty()
    } else {
        let g = segs[0];
        let rest = nums_in(segs.drop_first());
        if is_number_segment(g) && digits_value(g) <= u32::MAX {
            seq![digits_value(g) as u32] + rest
        } else {
            rest
        }
    }
}

/// The separators of a version: its runs of non-digits, in order.
pub open spec fn separators_in(segs: Seq<Seq<char>>) -> Seq<Seq<char>>
    decreases segs.len(),
{
    if segs.len() == 0 {
        Seq::empty()
    } else {
        let g = segs[0];
        let rest = separators_in(segs.drop_first());
        if g.len() > 0 && !is_ascii_digit(g[0]) {
            seq![g] + rest
        } else {
            rest
        }
    }
}

/// The numbers that the text `s` of a version holds.
pub open spec fn version_nums(s: Seq<char>) -> Seq<u32> {
    nums_in(segments(s))
}

/// The separators that the text `s` of a version holds.
pub open spec fn version_separators(s: Seq<char>) -> Seq<Seq<char>> {
    separators_in(segments(s))
}

/// Whether `s` is the text of a version: it holds at least one number.
pub open spec fn is_version_text(s: Seq<char>) -> bool {
    version_nums(s).len() > 0
}

proof fn lemma_run_step(s: Seq<char>, j: int, d: bool)
    requires
        0 <= j < s.len(),
        is_ascii_digit(s[j]) == d,
    ensures
        run_len(s.skip(j), d) == 1 + run_len(s.skip(j + 1), d),
{
    assert(s.skip(j).drop_first() =~= s.skip(j + 1));
}

proof fn lemma_segments_step(s: Seq<char>, i: int, j: int)
    requires
        0 <= i < j <= s.len(),
        run_len(s.skip(i), is_ascii_digit(s[i])) == j - i,
    ensures
        segments(s.skip(i)) == seq![s.subrange(i, j)] + segments(s.skip(j)),
        segments(s.skip(i)).drop_first() == segments(s.skip(j)),
        segments(s.skip(i))[0] == s.subrange(i, j),
        s.subrange(i, j)[0] == s[i],
{
    let t = s.skip(i);
    assert(t[0] == s[i]);
    assert(t.take(j - i) =~= s.subrange(i, j));
    assert(t.skip(j - i) =~= s.skip(j));
    assert((seq![s.subrange(i, j)] + segments(s.skip(j))).drop_first() =~= segments(s.skip(j)));
}

proof fn lemma_digits_push(p: Seq<char>, c: char)
    ensures
        digits_value(p.push(c)) == digits_value(p) * 10 + ((c as int) - ('0' as int)) as nat,
{
    assert(p.push(c).drop_last() =~= p);
}

/// The numbers and the separators of the text `s`, computed in one pass over
/// its maximal runs.
fn split_version_text(s: &str) -> (r: (Vec<u32>, Vec<String>))
    ensures
        r.0@ == version_nums(s@),
        r.1.deep_view() == version_separators(s@),
{
    let cs = chars_of(s);
    let n = cs.len();
    let mut nums: Vec<u32> = Vec::new();
    let mut seps: Vec<String> = Vec::new();
    let mut i: usize = 0;
    assert(s@.skip(0) =~= s@);
    while i < n
        invariant
            cs@ == s@,
            n == cs.len(),
            i <= n,
            nums@ + nums_in(segments(s@.skip(i as int))) == version_nums(s@),
            seps.deep_view() + separators_in(segments(s@.skip(i as int))) == version_separators(
                s@,
            ),
        decreases n - i,
    {
        let d = is_digit_char(cs[i]);
        let mut j: usize = i;
        let mut value: u64 = 0;
        let mut overflow = false;
        while j < n && is_digit_char(cs[j]) == d
            invariant
                cs@ == s@,
                n == cs.len(),
                i <= j <= n,
                d == is_ascii_digit(s@[i as int]),
                i < n,
                forall|k: int| i <= k < j ==> is_ascii_digit(#[trigger] s@[k]) == d,
                run_len(s@.skip(i as int), d) == (j - i) + run_len(s@.skip(j as int), d),
                value <= u32::MAX,
                d && !overflow ==> value == digits_value(s@.subrange(i as int, j as int)),
                d && overflow ==> digits_value(s@.subrange(i as int, j as int)) > u32::MAX,
            decreases n - j,
        {
            proof {
                lemma_run_step(s@, j as int, d);
                lemma_digits_push(s@.subrange(i as int, j as int), s@[j as int]);
                assert(s@.subrange(i as int, j as int).push(s@[j as int]) =~= s@.subrange(
                    i as int,
                    j + 1,
                ));
            }
            if d && !overflow {
                let c = cs[j];
                let digit: u64 = (c as u64) - ('0' as u64);
                let next: u64 = value * 10 + digit;
                if next > 0xffff_ffffu64 {
                    overflow = true;
                } else {
                    value = next;
                }
            }
            j = j + 1;
        }
        proof {
            if j < n {
                assert(s@.skip(j as int)[0] == s@[j as int]);
            }
            assert(run_len(s@.skip(j as int), d) == 0);
            lemma_segments_step(s@, i as int, j as int);
        }
        if d {
            if !overflow {
                let v: u32 = value as u32;
                nums.push(v);
            }
            assert(seps.deep_view() + separators_in(segments(s@.skip(j as int)))
                =~= version_separators(s@));
        } else {
            let piece = string_of(s.substring_char(i, j));
            let ghost before = seps.deep_view();
            seps.push(piece);
            assert(seps.deep_view() =~= before.push(s@.subrange(i as int, j as int)));
        }
        assert(nums@ + nums_in(segments(s@.skip(j as int))) =~= version_nums(s@));
        assert(seps.deep_view() + separators_in(segments(s@.skip(j as int)))
            =~= version_separators(s@));
        i = j;
    }
    assert(segments(s@.skip(n as int)) =~= Seq::<Seq<char>>::empty());
    assert(nums@ =~= version_nums(s@));
    assert(seps.deep_view() =~= version_separators(s@));
    (nums, seps)
}


/// Three-way comparison of two sequences of numbers: element by element over
/// their common length, then the shorter one first. `-1`, `0` or `1`.
pub open spec fn nums_order(a: Seq<u32>, b: Seq<u32>) -> int
    decreases a.len(),
{
    if a.len() == 0 || b.len() == 0 {
        if a.len() < b.len() {
            -1
        } else if a.len() == b.len() {
            0
        } else {
            1
        }
    } else if a[0] < b[0] {
        -1
    } else if a[0] > b[0] {
        1
    } else {
        nums_order(a.drop_first(), b.drop_first())
    }
}

proof fn lemma_nums_order_range(a: Seq<u32>, b: Seq<u32>)
    ensures
        -1 <= nums_order(a, b) <= 1,
    decreases a.len(),
{
    if a.len() > 0 && b.len() > 0 && a[0] == b[0] {
        lemma_nums_order_range(a.drop_first(), b.drop_first());
    }
}

pub proof fn lemma_version_order_range(a: Seq<char>, b: Seq<char>)
    ensures
        -1 <= version_order(a, b) <= 1,
{
    lemma_nums_order_range(version_nums(a), version_nums(b));
}

/// Three-way comparison of two versions, given by their texts: by their numbers alone.
pub open spec fn version_order(a: Seq<char>, b: Seq<char>) -> int {
    nums_order(version_nums(a), version_nums(b))
}

/// Every sequence of numbers is ordered level with itself.
proof fn lemma_nums_order_reflexive(a: Seq<u32>)
    ensures
        nums_order(a, a) == 0,
    decreases a.len(),
{
    if a.len() > 0 {
        lemma_nums_order_reflexive(a.drop_first());
    }
}

/// Swapping the two sides of a comparison of numbers negates it.
proof fn lemma_nums_order_antisymmetric(a: Seq<u32>, b: Seq<u32>)
    ensures
        nums_order(a, b) == -nums_order(b, a),
    decreases a.len(),
{
    if a.len() > 0 && b.len() > 0 && a[0] == b[0] {
        lemma_nums_order_antisymmetric(a.drop_first(), b.drop_first());
    }
}

/// The order of numbers is transitive, for `<=` and for `<`.
proof fn lemma_nums_order_transitive(a: Seq<u32>, b: Seq<u32>, c: Seq<u32>)
    ensures
        nums_order(a, b) <= 0 && nums_order(b, c) <= 0 ==> nums_order(a, c) <= 0,
        nums_order(a, b) < 0 && nums_order(b, c) <= 0 ==> nums_order(a, c) < 0,
        nums_order(a, b) <= 0 && nums_order(b, c) < 0 ==> nums_order(a, c) < 0,
    decreases a.len(),
{
    if a.len() > 0 && b.len() > 0 && c.len() > 0 && a[0] == b[0] && b[0] == c[0] {
        lemma_nums_order_transitive(a.drop_first(), b.drop_first(), c.drop_first());
    }
}

/// Each version is level with itself.
pub proof fn lemma_version_order_reflexive(a: Seq<char>)
    ensures
        version_order(a, a) == 0,
{
    lemma_nums_order_reflexive(version_nums(a));
}

/// Comparing `b` with `a` gives the opposite of comparing `a` with `b`.
pub proof fn lemma_version_order_antisymmetric(a: Seq<char>, b: Seq<char>)
    ensures
        version_order(a, b) == -version_order(b, a),
{
    lemma_nums_order_antisymmetric(version_nums(a), version_nums(b));
}

/// The order of versions is transitive, for `<=` and for `<`.
pub proof fn lemma_version_order_transitive(a: Seq<char>, b: Seq<char>, c: Seq<char>)
    ensures
        version_order(a, b) <= 0 && version_order(b, c) <= 0 ==> version_order(a, c) <= 0,
        version_order(a, b) < 0 && version_order(b, c) <= 0 ==> version_order(a, c) < 0,
        version_order(a, b) <= 0 && version_order(b, c) < 0 ==> version_order(a, c) < 0,
{
    lemma_nums_order_transitive(version_nums(a), version_nums(b), version_nums(c));
}

/// Any two versions are comparable: one is at most the other.
pub proof fn lemma_version_order_total(a: Seq<char>, b: Seq<char>)
    ensures
        version_order(a, b) <= 0 || version_order(b, a) <= 0,
{
    lemma_version_order_antisymmetric(a, b);
}

proof fn lemma_nums_order_exact(a: Seq<u32>, b: Seq<u32>)
    ensures
        nums_order(a, b) == 0 ==> a == b,
        forall|i: int|
            #![trigger a[i], b[i]]
            0 <= i < a.len() && i < b.len() && a.take(i) == b.take(i) && a[i] < b[i] ==> nums_order(a, b) == -1,
        a.len() < b.len() && b.take(a.len() as int) == a ==> nums_order(a, b) == -1,
    decreases a.len(),
{
    if a.len() > 0 && b.len() > 0 {
        let a1 = a.drop_first();
        let b1 = b.drop_first();
        lemma_nums_order_exact(a1, b1);
        if a[0] == b[0] {
            if nums_order(a, b) == 0 {
                assert(a1 == b1);
                assert(a =~= seq![a[0]] + a1);
                assert(b =~= seq![b[0]] + b1);
            }
            assert forall|i: int|
                #![trigger a[i], b[i]]
                0 <= i < a.len() && i < b.len() && a.take(i) == b.take(i) && a[i] < b[i] implies nums_order(
                    a,
                    b,
                ) == -1 by {
                if i > 0 {
                    assert(a1.take(i - 1) =~= a.take(i).drop_first());
                    assert(b1.take(i - 1) =~= b.take(i).drop_first());
                    assert(a1[i - 1] == a[i] && b1[i - 1] == b[i]);
                }
            }
            if a.len() < b.len() && b.take(a.len() as int) == a {
                assert(b1.take(a1.len() as int) =~= b.take(a.len() as int).drop_first());
            }
        } else {
            assert forall|i: int|
                #![trigger a[i], b[i]]
                0 <= i < a.len() && i < b.len() && a.take(i) == b.take(i) && a[i] < b[i] implies nums_order(
                    a,
                    b,
                ) == -1 by {
                if i > 0 {
                    assert(a.take(i)[0] == b.take(i)[0]);
                }
            }
            if a.len() < b.len() && b.take(a.len() as int) == a {
                assert(b.take(a.len() as int)[0] == b[0]);
            }
        }
    } else if a.len() == 0 && b.len() == 0 {
        assert(a =~= b);
    }
}

/// Versions are compared by all their numbers: two versions are level only
/// when their numbers are the same; otherwise the first number in which they
/// differ decides, and a version whose numbers begin those of a longer one
/// comes first.
pub proof fn lemma_version_order_by_numbers(a: Seq<char>, b: Seq<char>)
    ensures
        version_order(a, b) == 0 <==> version_nums(a) == version_nums(b),
        forall|i: int|
            #![trigger version_nums(a)[i], version_nums(b)[i]]
            0 <= i < version_nums(a).len() && i < version_nums(b).len() && version_nums(a).take(i)
                == version_nums(b).take(i) && version_nums(a)[i] < version_nums(b)[i] ==> version_order(a, b) == -1,
        version_nums(a).len() < version_nums(b).len() && version_nums(b).take(version_nums(a).len() as int)
            == version_nums(a) ==> version_order(a, b) == -1,
{
    lemma_nums_order_exact(version_nums(a), version_nums(b));
    lemma_nums_order_reflexive(version_nums(a));
}

fn order_num_vecs(a: &Vec<u32>, b: &Vec<u32>) -> (r: i8)
    ensures
        r == nums_order(a@, b@),
{
    let m = if a.len() < b.len() {
        a.len()
    } else {
        b.len()
    };
    let mut i: usize = 0;
    assert(a@.skip(0) =~= a@);
    assert(b@.skip(0) =~= b@);
    while i < m
        invariant
            m <= a.len(),
            m <= b.len(),
            m == a.len() || m == b.len(),
            i <= m,
            nums_order(a@, b@) == nums_order(a@.skip(i as int), b@.skip(i as int)),
        decreases m - i,
    {
        proof {
            assert(a@.skip(i as int).drop_first() =~= a@.skip(i + 1));
            assert(b@.skip(i as int).drop_first() =~= b@.skip(i + 1));
            assert(a@.skip(i as int)[0] == a@[i as int]);
            assert(b@.skip(i as int)[0] == b@[i as int]);
        }
        if a[i] < b[i] {
            return -1;
        }
        if a[i] > b[i] {
            return 1;
        }
        i = i + 1;
    }
    if a.len() < b.len() {
        -1
    } else if a.len() == b.len() {
        0
    } else {
        1
    }
}

/// A version: its text together with the numbers and separators read from it.
/// Versions are ordered by their numbers alone; two versions are equal when
/// their texts are.
#[derive(Debug)]
pub struct Version {
    string: String,
    nums: Vec<u32>,
    separators: Vec<String>,
}

impl View for Version {
    type V = Seq<char>;

    closed spec fn view(&self) -> Seq<char> {
        self.string@
    }
}

pub(crate) proof fn lemma_single_leading_digit(s: Seq<char>)
    requires
        s.len() >= 1,
        is_ascii_digit(s[0]),
        s.len() == 1 || !is_ascii_digit(s[1]),
    ensures
        is_version_text(s),
        version_nums(s)[0] == (s[0] as int) - ('0' as int),
{
    let d = s.drop_first();
    if s.len() > 1 {
        assert(d[0] == s[1]);
    }
    assert(run_len(d, true) == 0);
    assert(run_len(s, true) == 1);
    let g = s.take(1);
    assert(g.drop_last() =~= Seq::<char>::empty());
    assert(g.last() == s[0]);
    assert(digits_value(g.drop_last()) == 0);
    assert(digits_value(g) == (s[0] as int) - ('0' as int));
    assert(segments(s) == seq![g] + segments(s.skip(1)));
    assert((seq![g] + segments(s.skip(1))).drop_first() =~= segments(s.skip(1)));
    assert(segments(s)[0] == g);
}

impl Version {
    #[verifier::type_invariant]
    spec fn well_formed(self) -> bool {
        &&& self.nums@ == version_nums(self.string@)
        &&& self.separators.deep_view() == version_separators(self.string@)
        &&& self.nums@.len() > 0
    }

    /// Reads a version from its text. Fails when the text holds no number.
    pub fn from_str(s: &str) -> (r: Result<Version, String>)
        ensures
            match r {
                Ok(v) => is_version_text(s@) && v@ == s@,
                Err(e) => !is_version_text(s@) && e@ == "There is no values for Version struct."@,
            },
    {
        let (nums, separators) = split_version_text(s);
        if nums.len() == 0 {
            return Err(string_of("There is no values for Version struct."));
        }
        Ok(Version { string: string_of(s), nums, separators })
    }

    /// The text of the version; reading it back gives the same version.
    pub fn to_string(&self) -> (r: String)
        ensures
            r@ == self@,
            is_version_text(r@),
    {
        proof {
            use_type_invariant(self);
        }
        self.string.clone()
    }

    /// Three-way comparison with `other` by the numbers of both: `-1`, `0` or `1`.
    pub fn precedence(&self, other: &Version) -> (r: i8)
        ensures
            r == version_order(self@, other@),
            -1 <= r <= 1,
    {
        proof {
            use_type_invariant(self);
            use_type_invariant(other);
            lemma_nums_order_range(version_nums(self@), version_nums(other@));
        }
        order_num_vecs(&self.nums, &other.nums)
    }

    /// Whether the two versions have the same text.
    pub fn same_as(&self, other: &Version) -> (r: bool)
        ensures
            r == (self@ == other@),
    {
        self.string == other.string
    }
}

impl Clone for Version {
    fn clone(&self) -> (r: Self)
        ensures
            r@ == self@,
    {
        proof {
            use_type_invariant(self);
        }
        let separators = self.separators.clone();
        proof {
            assert(separators.deep_view() =~= self.separators.deep_view());
        }
        Version { string: self.string.clone(), nums: self.nums.clone(), separators }
    }
}

impl Default for Version {
    /// The version `1.0.0`.
    fn default() -> (r: Self)
        ensures
            r@ == "1.0.0"@,
    {
        proof {
            reveal_strlit("1.0.0");
            lemma_single_leading_digit("1.0.0"@);
        }
        let r = Version::from_str("1.0.0");
        r.unwrap()
    }
}


/// The kind of bound that one clause of a range adds.
#[derive(Clone, Copy, Debug, PartialEq, Eq)]
pub enum VersionRangeInsertType {
    /// `<` (also written `<<`)
    StrictlyEarlier,
    /// `<=`
    EarlierOrEqual,
    /// `=` (also written `==`, or a bare version)
    ExactlyEqual,
    /// `>=`
    LaterOrEqual,
    /// `>` (also written `>>`)
    StrictlyLater,
}

/// The bounds of a range, each a version text when present.
pub struct RangeView {
    pub strictly_earlier: Option<Seq<char>>,
    pub earlier_or_equal: Option<Seq<char>>,
    pub exactly_equal: Option<Seq<char>>,
    pub later_or_equal: Option<Seq<char>>,
    pub strictly_later: Option<Seq<char>>,
}

/// A range with no bound.
pub open spec fn unbounded() -> RangeView {
    RangeView {
        strictly_earlier: None,
        earlier_or_equal: None,
        exactly_equal: None,
        later_or_equal: None,
        strictly_later: None,
    }
}

/// Whether the bound `o` is present and `pred` holds of the order of that
/// bound against `v`.
pub open spec fn bound_order_is(o: Option<Seq<char>>, v: Seq<char>, lo: int, hi: int) -> bool {
    match o {
        Some(x) => lo <= version_order(x, v) <= hi,
        None => false,
    }
}

/// The range `r` with the bounds `<= x` and `>= x` merged into `= x` when both
/// are present and equal.
pub open spec fn merge_equal_bounds(r: RangeView) -> RangeView {
    match (r.later_or_equal, r.earlier_or_equal) {
        (Some(a), Some(b)) => if a == b {
            RangeView { exactly_equal: Some(a), earlier_or_equal: None, later_or_equal: None, ..r }
        } else {
            r
        },
        _ => r,
    }
}

/// The range `r` with the bound of kind `kind` at version `v` added,
/// or `None` where the new bound contradicts `r`.
pub open spec fn insert_bound(r: RangeView, v: Seq<char>, kind: VersionRangeInsertType) -> Option<
    RangeView,
> {
    match kind {
        VersionRangeInsertType::StrictlyEarlier => {
            if bound_order_is(r.exactly_equal, v, 0, 1) || bound_order_is(r.later_or_equal, v, 0, 1)
                || bound_order_is(r.strictly_later, v, 0, 1) {
                None
            } else if r.earlier_or_equal is Some {
                if bound_order_is(r.earlier_or_equal, v, 0, 1) {
                    Some(RangeView { earlier_or_equal: Some(v), ..r })
                } else {
                    Some(r)
                }
            } else if r.strictly_earlier is Some {
                if bound_order_is(r.strictly_earlier, v, 1, 1) {
                    Some(RangeView { strictly_earlier: Some(v), ..r })
                } else {
                    Some(r)
                }
            } else {
                Some(RangeView { strictly_earlier: Some(v), ..r })
            }
        },
        VersionRangeInsertType::EarlierOrEqual => {
            if bound_order_is(r.exactly_equal, v, 1, 1) || bound_order_is(r.strictly_later, v, 1, 1) {
                None
            } else if r.earlier_or_equal is Some {
                if bound_order_is(r.earlier_or_equal, v, 1, 1) {
                    Some(merge_equal_bounds(RangeView { earlier_or_equal: Some(v), ..r }))
                } else {
                    Some(merge_equal_bounds(r))
                }
            } else {
                Some(merge_equal_bounds(RangeView { earlier_or_equal: Some(v), ..r }))
            }
        },
        VersionRangeInsertType::ExactlyEqual => {
            if (r.exactly_equal matches Some(x) && x != v) || bound_order_is(
                r.strictly_earlier,
                v,
                -1,
                0,
            ) || bound_order_is(r.earlier_or_equal, v, -1, -1) || bound_order_is(
                r.strictly_later,
                v,
                0,
                1,
            ) || bound_order_is(r.later_or_equal, v, 1, 1) {
                None
            } else {
                Some(RangeView { exactly_equal: Some(v), ..unbounded() })
            }
        },
        VersionRangeInsertType::LaterOrEqual => {
            if bound_order_is(r.exactly_equal, v, -1, -1) || bound_order_is(
                r.strictly_earlier,
                v,
                -1,
                -1,
            ) {
                None
            } else if r.later_or_equal is Some {
                if bound_order_is(r.later_or_equal, v, -1, -1) {
                    Some(merge_equal_bounds(RangeView { later_or_equal: Some(v), ..r }))
                } else {
                    Some(merge_equal_bounds(r))
                }
            } else {
                Some(merge_equal_bounds(RangeView { later_or_equal: Some(v), ..r }))
            }
        },
        VersionRangeInsertType::StrictlyLater => {
            if bound_order_is(r.exactly_equal, v, -1, 0) || bound_order_is(
                r.earlier_or_equal,
                v,
                -1,
                0,
            ) || bound_order_is(r.strictly_earlier, v, -1, 0) {
                None
            } else if r.later_or_equal is Some {
                if bound_order_is(r.later_or_equal, v, -1, 0) {
                    Some(RangeView { later_or_equal: None, strictly_later: Some(v), ..r })
                } else {
                    Some(r)
                }
            } else if r.strictly_later is Some {
                if bound_order_is(r.strictly_later, v, -1, -1) {
                    Some(RangeView { strictly_later: Some(v), ..r })
                } else {
                    Some(r)
                }
            } else {
                Some(RangeView { strictly_later: Some(v), ..r })
            }
        },
    }
}

/// Whether the version with text `v` lies in the range `r` (`None`: every version).
pub open spec fn range_accepts(r: Option<RangeView>, v: Seq<char>) -> bool {
    match r {
        None => true,
        Some(b) => {
            &&& (b.strictly_earlier matches Some(x) ==> version_order(v, x) < 0)
            &&& (b.earlier_or_equal matches Some(x) ==> version_order(v, x) <= 0)
            &&& (b.exactly_equal matches Some(x) ==> v == x)
            &&& (b.later_or_equal matches Some(x) ==> version_order(v, x) >= 0)
            &&& (b.strictly_later matches Some(x) ==> version_order(v, x) > 0)
        },
    }
}

/// Whether the version `w` meets the single clause of kind `kind` at `v`.
pub open spec fn clause_holds(w: Seq<char>, v: Seq<char>, kind: VersionRangeInsertType) -> bool {
    match kind {
        VersionRangeInsertType::StrictlyEarlier => version_order(w, v) < 0,
        VersionRangeInsertType::EarlierOrEqual => version_order(w, v) <= 0,
        VersionRangeInsertType::ExactlyEqual => w == v,
        VersionRangeInsertType::LaterOrEqual => version_order(w, v) >= 0,
        VersionRangeInsertType::StrictlyLater => version_order(w, v) > 0,
    }
}

/// A range made of one clause accepts exactly the versions that meet the clause.
pub proof fn lemma_single_clause(v: Seq<char>, kind: VersionRangeInsertType, w: Seq<char>)
    ensures
        insert_bound(unbounded(), v, kind) is Some,
        range_accepts(Some(insert_bound(unbounded(), v, kind)->0), w) == clause_holds(w, v, kind),
{
}

/// `< v` added to a range that has a bound `<= b` with `b` not below `v`:
/// the bound becomes `<= v`, which also admits versions level with `v`.
pub open spec fn upper_bound_quirk(r: RangeView, v: Seq<char>, kind: VersionRangeInsertType) -> bool {
    &&& kind == VersionRangeInsertType::StrictlyEarlier
    &&& r.earlier_or_equal matches Some(b) && version_order(b, v) >= 0
}

/// `> v` added to a range that has a bound `>= d` with `d` not above `v`
/// and a bound `> e` with `e` above `v`: the bound `> e` is replaced by `> v`.
pub open spec fn lower_bound_quirk(r: RangeView, v: Seq<char>, kind: VersionRangeInsertType) -> bool {
    &&& kind == VersionRangeInsertType::StrictlyLater
    &&& r.later_or_equal matches Some(d) && version_order(d, v) <= 0
    &&& r.strictly_later matches Some(e) && version_order(e, v) > 0
}

/// Whether the `=` bound of `r`, if any, meets the other bounds of `r`; the
/// ranges that parsing builds are such.
pub open spec fn equal_bound_consistent(r: RangeView) -> bool {
    r.exactly_equal matches Some(x) ==> range_accepts(Some(RangeView { exactly_equal: None, ..r }), x)
}

/// The texts of the bounds of `r`.
pub open spec fn bound_texts(r: RangeView) -> Set<Seq<char>> {
    Set::empty().union(opt_set(r.strictly_earlier)).union(opt_set(r.earlier_or_equal)).union(
        opt_set(r.exactly_equal),
    ).union(opt_set(r.later_or_equal)).union(opt_set(r.strictly_later))
}

/// The text of a bound, as a set of at most one text.
pub open spec fn opt_set(o: Option<Seq<char>>) -> Set<Seq<char>> {
    match o {
        Some(x) => set![x],
        None => Set::empty(),
    }
}

/// Whether versions of `ts` that are level are the same text.
pub open spec fn canonical_texts(ts: Set<Seq<char>>) -> bool {
    forall|x: Seq<char>, y: Seq<char>|
        #![trigger ts.contains(x), ts.contains(y)]
        ts.contains(x) && ts.contains(y) && version_order(x, y) == 0 ==> x == y
}

proof fn lemma_order_facts(a: Seq<char>, b: Seq<char>, c: Seq<char>)
    ensures
        -1 <= version_order(a, b) <= 1,
        -1 <= version_order(b, c) <= 1,
        -1 <= version_order(a, c) <= 1,
        version_order(a, b) == -version_order(b, a),
        version_order(b, c) == -version_order(c, b),
        version_order(a, c) == -version_order(c, a),
        version_order(a, b) <= 0 && version_order(b, c) <= 0 ==> version_order(a, c) <= 0,
        version_order(a, b) < 0 && version_order(b, c) <= 0 ==> version_order(a, c) < 0,
        version_order(a, b) <= 0 && version_order(b, c) < 0 ==> version_order(a, c) < 0,
        version_order(c, b) <= 0 && version_order(b, a) <= 0 ==> version_order(c, a) <= 0,
        version_order(c, b) < 0 && version_order(b, a) <= 0 ==> version_order(c, a) < 0,
        version_order(c, b) <= 0 && version_order(b, a) < 0 ==> version_order(c, a) < 0,
{
    lemma_version_order_range(a, b);
    lemma_version_order_range(b, c);
    lemma_version_order_range(a, c);
    lemma_version_order_antisymmetric(a, b);
    lemma_version_order_antisymmetric(b, c);
    lemma_version_order_antisymmetric(a, c);
    lemma_version_order_transitive(a, b, c);
    lemma_version_order_transitive(c, b, a);
}

/// What adding a bound means: on versions whose level texts are the same
/// text, to a range whose `=` bound meets its other bounds, and outside the
/// two quirks above, the range that `insert_bound`
/// gives accepts exactly the versions that the old range accepts and that
/// meet the new clause.
pub proof fn lemma_insert_bound_intersects(r: RangeView, v: Seq<char>, kind: VersionRangeInsertType, w: Seq<char>)
    requires
        insert_bound(r, v, kind) is Some,
        !upper_bound_quirk(r, v, kind),
        !lower_bound_quirk(r, v, kind),
        equal_bound_consistent(r),
        canonical_texts(bound_texts(r).insert(v).insert(w)),
    ensures
        range_accepts(Some(insert_bound(r, v, kind)->0), w) == (range_accepts(Some(r), w) && clause_holds(
            w,
            v,
            kind,
        )),
{
    let ts = bound_texts(r).insert(v).insert(w);
    assert(ts.contains(v) && ts.contains(w));
    lemma_version_order_reflexive(w);
    lemma_version_order_reflexive(v);
    if let Some(x) = r.strictly_earlier {
        assert(ts.contains(x));
        lemma_order_facts(w, v, x);
        lemma_order_facts(w, x, v);
    }
    if let Some(x) = r.earlier_or_equal {
        assert(ts.contains(x));
        lemma_order_facts(w, v, x);
        lemma_order_facts(w, x, v);
    }
    if let Some(x) = r.exactly_equal {
        assert(ts.contains(x));
        lemma_order_facts(w, v, x);
        lemma_order_facts(w, x, v);
    }
    if let Some(x) = r.later_or_equal {
        assert(ts.contains(x));
        lemma_order_facts(w, v, x);
        lemma_order_facts(w, x, v);
    }
    if let Some(x) = r.strictly_later {
        assert(ts.contains(x));
        lemma_order_facts(w, v, x);
        lemma_order_facts(w, x, v);
    }
    lemma_order_facts(w, v, v);
    // one case per kind of bound keeps each query small
    let goal = range_accepts(Some(insert_bound(r, v, kind)->0), w) == (range_accepts(Some(r), w)
        && clause_holds(w, v, kind));
    match kind {
        VersionRangeInsertType::StrictlyEarlier => assert(goal),
        VersionRangeInsertType::EarlierOrEqual => assert(goal),
        VersionRangeInsertType::ExactlyEqual => assert(goal),
        VersionRangeInsertType::LaterOrEqual => assert(goal),
        VersionRangeInsertType::StrictlyLater => assert(goal),
    }
}

/// Adding a clause never lets through a version that fails it: every
/// version that the new range accepts meets the new clause, except that a
/// `< v` added to a range with a bound `<= b` (`b` not below `v`) admits
/// versions level with `v` as well; even then no accepted version lies
/// above `v`.
pub proof fn lemma_insert_bound_sound(r: RangeView, v: Seq<char>, kind: VersionRangeInsertType, w: Seq<char>)
    requires
        insert_bound(r, v, kind) is Some,
        range_accepts(Some(insert_bound(r, v, kind)->0), w),
    ensures
        kind == VersionRangeInsertType::StrictlyEarlier ==> version_order(w, v) <= 0,
        !upper_bound_quirk(r, v, kind) ==> clause_holds(w, v, kind),
{
    lemma_version_order_reflexive(w);
    lemma_version_order_reflexive(v);
    if let Some(x) = r.strictly_earlier {
        lemma_order_facts(w, x, v);
    }
    if let Some(x) = r.earlier_or_equal {
        lemma_order_facts(w, x, v);
    }
    if let Some(x) = r.exactly_equal {
        lemma_order_facts(w, x, v);
    }
    if let Some(x) = r.later_or_equal {
        lemma_order_facts(w, x, v);
        lemma_order_facts(v, x, w);
    }
    if let Some(x) = r.strictly_later {
        lemma_order_facts(w, x, v);
        lemma_order_facts(v, x, w);
    }
    lemma_order_facts(w, v, v);
    match kind {
        VersionRangeInsertType::StrictlyEarlier => {},
        VersionRangeInsertType::EarlierOrEqual => {},
        VersionRangeInsertType::ExactlyEqual => {},
        VersionRangeInsertType::LaterOrEqual => {},
        VersionRangeInsertType::StrictlyLater => {},
    }
}

/// The range `*` accepts every version.
pub proof fn lemma_star_accepts_all(w: Seq<char>)
    ensures
        parse_range("*"@) == Ok::<Option<RangeView>, Seq<char>>(None),
        range_accepts(None, w),
{
    reveal_strlit("*");
    let s = "*"@;
    assert(s.len() == 1 && s[0] == '*');
    assert(trim_start(s) == s);
    assert(s.last() == '*');
    assert(trim_end(s) == s);
    assert(trim(s) == s);
}

/// The view of an optional version.
pub open spec fn opt_version_view(o: Option<Version>) -> Option<Seq<char>> {
    match o {
        Some(v) => Some(v@),
        None => None,
    }
}

/// The bounds of a range that is not `*`.
#[derive(Debug)]
pub struct RangeData {
    strictly_earlier: Option<Version>,
    earlier_or_equal: Option<Version>,
    exactly_equal: Option<Version>,
    later_or_equal: Option<Version>,
    strictly_later: Option<Version>,
}

impl View for RangeData {
    type V = RangeView;

    closed spec fn view(&self) -> RangeView {
        RangeView {
            strictly_earlier: opt_version_view(self.strictly_earlier),
            earlier_or_equal: opt_version_view(self.earlier_or_equal),
            exactly_equal: opt_version_view(self.exactly_equal),
            later_or_equal: opt_version_view(self.later_or_equal),
            strictly_later: opt_version_view(self.strictly_later),
        }
    }
}

fn clone_opt_version(o: &Option<Version>) -> (r: Option<Version>)
    ensures
        opt_version_view(r) == opt_version_view(*o),
{
    match o {
        Some(v) => Some(v.clone()),
        None => None,
    }
}

impl Clone for RangeData {
    fn clone(&self) -> (r: RangeData)
        ensures
            r@ == self@,
    {
        RangeData {
            strictly_earlier: clone_opt_version(&self.strictly_earlier),
            earlier_or_equal: clone_opt_version(&self.earlier_or_equal),
            exactly_equal: clone_opt_version(&self.exactly_equal),
            later_or_equal: clone_opt_version(&self.later_or_equal),
            strictly_later: clone_opt_version(&self.strictly_later),
        }
    }
}

/// Whether the bound `o` is present and its order against `v` lies in `[lo, hi]`.
fn bound_order_in(o: &Option<Version>, v: &Version, lo: i8, hi: i8) -> (r: bool)
    ensures
        r == bound_order_is(opt_version_view(*o), v@, lo as int, hi as int),
{
    match o {
        Some(x) => {
            let p = x.precedence(v);
            lo <= p && p <= hi
        },
        None => false,
    }
}

fn merge_equal(rd: &mut RangeData)
    ensures
        final(rd)@ == merge_equal_bounds(old(rd)@),
{
    let merged = match (&rd.later_or_equal, &rd.earlier_or_equal) {
        (Some(a), Some(b)) => {
            if a.same_as(b) {
                Some(a.clone())
            } else {
                None
            }
        },
        _ => None,
    };
    if let Some(a) = merged {
        rd.exactly_equal = Some(a);
        rd.earlier_or_equal = None;
        rd.later_or_equal = None;
    }
}

impl Version {
    /// Adds the bound of kind `insert_type` at this version to `range_data_opt`.
    /// `None` when there was no range to begin with, or when the new bound
    /// contradicts the range.
    pub fn insert_to_range_data(
        &self,
        range_data_opt: Option<RangeData>,
        insert_type: VersionRangeInsertType,
    ) -> (r: Option<RangeData>)
        ensures
            match range_data_opt {
                None => r is None,
                Some(rd) => match insert_bound(rd@, self@, insert_type) {
                    None => r is None,
                    Some(nv) => r matches Some(nrd) && nrd@ == nv,
                },
            },
    {
        let mut rd = match range_data_opt {
            Some(rd) => rd,
            None => {
                return None;
            },
        };
        match insert_type {
            VersionRangeInsertType::StrictlyEarlier => {
                if bound_order_in(&rd.exactly_equal, self, 0, 1) || bound_order_in(
                    &rd.later_or_equal,
                    self,
                    0,
                    1,
                ) || bound_order_in(&rd.strictly_later, self, 0, 1) {
                    return None;
                }
                if rd.earlier_or_equal.is_some() {
                    if bound_order_in(&rd.earlier_or_equal, self, 0, 1) {
                        rd.earlier_or_equal = Some(self.clone());
                    }
                } else if rd.strictly_earlier.is_some() {
                    if bound_order_in(&rd.strictly_earlier, self, 1, 1) {
                        rd.strictly_earlier = Some(self.clone());
                    }
                } else {
                    rd.strictly_earlier = Some(self.clone());
                }
            },
            VersionRangeInsertType::EarlierOrEqual => {
                if bound_order_in(&rd.exactly_equal, self, 1, 1) || bound_order_in(
                    &rd.strictly_later,
                    self,
                    1,
                    1,
                ) {
                    return None;
                }
                if rd.earlier_or_equal.is_some() {
                    if bound_order_in(&rd.earlier_or_equal, self, 1, 1) {
                        rd.earlier_or_equal = Some(self.clone());
                    }
                } else {
                    rd.earlier_or_equal = Some(self.clone());
                }
                merge_equal(&mut rd);
            },
            VersionRangeInsertType::ExactlyEqual => {
                let differs = match &rd.exactly_equal {
                    Some(x) => !x.same_as(self),
                    None => false,
                };
                if differs {
                    return None;
                }
                if bound_order_in(&rd.strictly_earlier, self, -1, 0) || bound_order_in(
                    &rd.earlier_or_equal,
                    self,
                    -1,
                    -1,
                ) || bound_order_in(&rd.strictly_later, self, 0, 1) || bound_order_in(
                    &rd.later_or_equal,
                    self,
                    1,
                    1,
                ) {
                    return None;
                }
                rd.exactly_equal = Some(self.clone());
                rd.strictly_earlier = None;
                rd.earlier_or_equal = None;
                rd.strictly_later = None;
                rd.later_or_equal = None;
            },
            VersionRangeInsertType::LaterOrEqual => {
                if bound_order_in(&rd.exactly_equal, self, -1, -1) || bound_order_in(
                    &rd.strictly_earlier,
                    self,
                    -1,
                    -1,
                ) {
                    return None;
                }
                if rd.later_or_equal.is_some() {
                    if bound_order_in(&rd.later_or_equal, self, -1, -1) {
                        rd.later_or_equal = Some(self.clone());
                    }
                } else {
                    rd.later_or_equal = Some(self.clone());
                }
                merge_equal(&mut rd);
            },
            VersionRangeInsertType::StrictlyLater => {
                if bound_order_in(&rd.exactly_equal, self, -1, 0) || bound_order_in(
                    &rd.earlier_or_equal,
                    self,
                    -1,
                    0,
                ) || bound_order_in(&rd.strictly_earlier, self, -1, 0) {
                    return None;
                }
                if rd.later_or_equal.is_some() {
                    if bound_order_in(&rd.later_or_equal, self, -1, 0) {
                        rd.later_or_equal = None;
                        rd.strictly_later = Some(self.clone());
                    }
                } else if rd.strictly_later.is_some() {
                    if bound_order_in(&rd.strictly_later, self, -1, -1) {
                        rd.strictly_later = Some(self.clone());
                    }
                } else {
                    rd.strictly_later = Some(self.clone());
                }
            },
        }
        Some(rd)
    }
}


/// A set of versions: every version (`*`), or the versions within some bounds.
#[derive(Debug)]
pub struct VersionRange {
    _range_data: Option<RangeData>,
}

impl View for VersionRange {
    type V = Option<RangeView>;

    closed spec fn view(&self) -> Option<RangeView> {
        match self._range_data {
            Some(rd) => Some(rd@),
            None => None,
        }
    }
}

impl Clone for VersionRange {
    fn clone(&self) -> (r: VersionRange)
        ensures
            r@ == self@,
    {
        match &self._range_data {
            Some(rd) => VersionRange { _range_data: Some(rd.clone()) },
            None => VersionRange { _range_data: None },
        }
    }
}

impl Default for VersionRange {
    /// The range `*`.
    fn default() -> (r: VersionRange)
        ensures
            r@ is None,
    {
        VersionRange { _range_data: None }
    }
}

/// The kind of bound that a relation symbol names, if it names one.
pub open spec fn symbol_kind(sym: Seq<char>) -> Option<VersionRangeInsertType> {
    if sym == ">>"@ || sym == ">"@ {
        Some(VersionRangeInsertType::StrictlyLater)
    } else if sym == ">="@ {
        Some(VersionRangeInsertType::LaterOrEqual)
    } else if sym == "="@ || sym == "=="@ {
        Some(VersionRangeInsertType::ExactlyEqual)
    } else if sym == "<="@ {
        Some(VersionRangeInsertType::EarlierOrEqual)
    } else if sym == "<<"@ || sym == "<"@ {
        Some(VersionRangeInsertType::StrictlyEarlier)
    } else {
        None
    }
}

/// One clause of a range, already trimmed: a version text, or a relation
/// symbol and a version text, separated by whitespace.
pub open spec fn parse_clause(part: Seq<char>) -> Result<(Seq<char>, VersionRangeInsertType), Seq<char>> {
    let toks = ws_tokens(part);
    if toks.len() == 1 {
        Ok((toks[0], VersionRangeInsertType::ExactlyEqual))
    } else if toks.len() == 2 {
        match symbol_kind(toks[0]) {
            Some(k) => Ok((toks[1], k)),
            None => Err("Invalid relation symbol: "@ + toks[0]),
        }
    } else {
        Err("Invalid range format: "@ + part)
    }
}

/// Adds the clauses `parts` one by one to the bounds `acc`; `s` is the whole
/// text of the range, for the message on a contradiction.
pub open spec fn parse_clauses(parts: Seq<Seq<char>>, acc: RangeView, s: Seq<char>) -> Result<
    RangeView,
    Seq<char>,
>
    decreases parts.len(),
{
    if parts.len() == 0 {
        Ok(acc)
    } else {
        match parse_clause(trim(parts[0])) {
            Err(e) => Err(e),
            Ok((vt, kind)) => if !is_version_text(vt) {
                Err("There is no values for Version struct."@)
            } else {
                match insert_bound(acc, vt, kind) {
                    None => Err("Conflicting version range: "@ + s),
                    Some(next) => parse_clauses(parts.drop_first(), next, s),
                }
            },
        }
    }
}

/// The range that the text `s` denotes: `*` for every version, else clauses
/// separated by commas; or the message of the error.
pub open spec fn parse_range(s: Seq<char>) -> Result<Option<RangeView>, Seq<char>> {
    let t = trim(s);
    if t == "*"@ {
        Ok(None)
    } else {
        match parse_clauses(split_on(t, ','), unbounded(), s) {
            Ok(r) => Ok(Some(r)),
            Err(e) => Err(e),
        }
    }
}

fn symbol_to_kind(sym: &str) -> (r: Option<VersionRangeInsertType>)
    ensures
        r == symbol_kind(sym@),
{
    if str_eq(sym, ">>") || str_eq(sym, ">") {
        Some(VersionRangeInsertType::StrictlyLater)
    } else if str_eq(sym, ">=") {
        Some(VersionRangeInsertType::LaterOrEqual)
    } else if str_eq(sym, "=") || str_eq(sym, "==") {
        Some(VersionRangeInsertType::ExactlyEqual)
    } else if str_eq(sym, "<=") {
        Some(VersionRangeInsertType::EarlierOrEqual)
    } else if str_eq(sym, "<<") || str_eq(sym, "<") {
        Some(VersionRangeInsertType::StrictlyEarlier)
    } else {
        None
    }
}

fn clause_of(part: &str) -> (r: Result<(String, VersionRangeInsertType), String>)
    ensures
        match r {
            Ok((v, k)) => parse_clause(part@) == Ok::<(Seq<char>, VersionRangeInsertType), Seq<char>>(
                (v@, k),
            ),
            Err(e) => parse_clause(part@) == Err::<(Seq<char>, VersionRangeInsertType), Seq<char>>(
                e@,
            ),
        },
{
    let toks = split_whitespace_str(part);
    proof {
        assert(toks.deep_view().len() == toks@.len());
    }
    if toks.len() == 1 {
        proof {
            assert(toks.deep_view()[0] == toks@[0]@);
        }
        Ok((toks[0].clone(), VersionRangeInsertType::ExactlyEqual))
    } else if toks.len() == 2 {
        proof {
            assert(toks.deep_view()[0] == toks@[0]@);
            assert(toks.deep_view()[1] == toks@[1]@);
        }
        match symbol_to_kind(toks[0].as_str()) {
            Some(k) => Ok((toks[1].clone(), k)),
            None => Err(concat("Invalid relation symbol: ", toks[0].as_str())),
        }
    } else {
        Err(concat("Invalid range format: ", part))
    }
}

fn empty_range_data() -> (r: RangeData)
    ensures
        r@ == unbounded(),
{
    RangeData {
        strictly_earlier: None,
        earlier_or_equal: None,
        exactly_equal: None,
        later_or_equal: None,
        strictly_later: None,
    }
}

fn optional_bound_holds(o: &Option<Version>, v: &Version, lo: i8, hi: i8) -> (r: bool)
    ensures
        r == (opt_version_view(*o) matches Some(x) ==> lo <= version_order(v@, x) <= hi),
{
    match o {
        Some(x) => {
            let p = v.precedence(x);
            lo <= p && p <= hi
        },
        None => true,
    }
}

impl VersionRange {
    /// Reads a range from its text: `*`, or comma-separated clauses such as
    /// `>= 1.0`, `< 2.0`, `= 1.2.3` or a bare version.
    pub fn from_str(s: &str) -> (r: Result<VersionRange, String>)
        ensures
            match r {
                Ok(vr) => parse_range(s@) == Ok::<Option<RangeView>, Seq<char>>(vr@),
                Err(e) => parse_range(s@) == Err::<Option<RangeView>, Seq<char>>(e@),
            },
    {
        let trimmed_s = trim_str(s);
        if str_eq(trimmed_s, "*") {
            return Ok(VersionRange { _range_data: None });
        }
        let pieces = split_str(trimmed_s, ',');
        let mut range_data = empty_range_data();
        let mut i: usize = 0;
        proof {
            assert(pieces.deep_view().skip(0) =~= pieces.deep_view());
        }
        while i < pieces.len()
            invariant
                i <= pieces.len(),
                trim(s@) != "*"@,
                pieces.deep_view() == split_on(trim(s@), ','),
                parse_clauses(split_on(trim(s@), ','), unbounded(), s@) == parse_clauses(
                    pieces.deep_view().skip(i as int),
                    range_data@,
                    s@,
                ),
            decreases pieces.len() - i,
        {
            let ghost rest = pieces.deep_view().skip(i as int);
            proof {
                assert(rest[0] == pieces@[i as int]@);
                assert(rest.drop_first() =~= pieces.deep_view().skip(i + 1));
            }
            let part = trim_str(pieces[i].as_str());
            let (version_str, insert_type) = match clause_of(part) {
                Ok(c) => c,
                Err(e) => {
                    proof {
                        assert(parse_clauses(rest, range_data@, s@) == Err::<RangeView, Seq<char>>(
                            e@,
                        ));
                        assert(trim(s@) != "*"@);
                        assert(parse_range(s@) == Err::<Option<RangeView>, Seq<char>>(e@));
                    }
                    return Err(e);
                },
            };
            let version = match Version::from_str(version_str.as_str()) {
                Ok(v) => v,
                Err(e) => {
                    proof {
                        assert(parse_clauses(rest, range_data@, s@) == Err::<RangeView, Seq<char>>(
                            e@,
                        ));
                        assert(trim(s@) != "*"@);
                        assert(parse_range(s@) == Err::<Option<RangeView>, Seq<char>>(e@));
                    }
                    return Err(e);
                },
            };
            match version.insert_to_range_data(Some(range_data), insert_type) {
                Some(next) => {
                    range_data = next;
                },
                None => {
                    return Err(concat("Conflicting version range: ", s));
                },
            }
            i = i + 1;
        }
        Ok(VersionRange { _range_data: Some(range_data) })
    }

    /// Whether `version` lies in the range.
    pub fn compare(&self, version: &Version) -> (r: bool)
        ensures
            r == range_accepts(self@, version@),
    {
        match &self._range_data {
            None => true,
            Some(rd) => {
                proof {
                    let b = rd@;
                    if let Some(x) = b.strictly_earlier {
                        lemma_version_order_range(version@, x);
                    }
                    if let Some(x) = b.earlier_or_equal {
                        lemma_version_order_range(version@, x);
                    }
                    if let Some(x) = b.later_or_equal {
                        lemma_version_order_range(version@, x);
                    }
                    if let Some(x) = b.strictly_later {
                        lemma_version_order_range(version@, x);
                    }
                }
                optional_bound_holds(&rd.strictly_earlier, version, -1, -1)
                    && optional_bound_holds(&rd.earlier_or_equal, version, -1, 0) && match &rd.exactly_equal {
                    Some(x) => version.same_as(x),
                    None => true,
                } && optional_bound_holds(&rd.later_or_equal, version, 0, 1)
                    && optional_bound_holds(&rd.strictly_later, version, 1, 1)
            },
        }
    }
}


/// The parts `sep`-joined: `parts[0] + sep + parts[1] + ...`.
pub open spec fn join(parts: Seq<Seq<char>>, sep: Seq<char>) -> Seq<char>
    decreases parts.len(),
{
    if parts.len() == 0 {
        Seq::empty()
    } else if parts.len() == 1 {
        parts[0]
    } else {
        join(parts.drop_last(), sep) + sep + parts.last()
    }
}

/// `seq![prefix + x]` when the bound is `Some(x)`, else nothing.
pub open spec fn bound_part(prefix: Seq<char>, o: Option<Seq<char>>) -> Seq<Seq<char>> {
    match o {
        Some(x) => seq![prefix + x],
        None => Seq::empty(),
    }
}

/// The written bounds of a range, in the order `<`, `<=`, `=`, `>=`, `>`.
pub open spec fn bound_parts(r: RangeView) -> Seq<Seq<char>> {
    bound_part("< "@, r.strictly_earlier) + bound_part("<= "@, r.earlier_or_equal) + bound_part(
        "= "@,
        r.exactly_equal,
    ) + bound_part(">= "@, r.later_or_equal) + bound_part("> "@, r.strictly_later)
}

/// The text of a range: `*`, or its bounds joined by `, `.
pub open spec fn range_text(r: Option<RangeView>) -> Seq<char> {
    match r {
        None => "*"@,
        Some(b) => if bound_parts(b).len() == 0 {
            "*"@
        } else {
            join(bound_parts(b), ", "@)
        },
    }
}

fn push_bound_part(parts: &mut Vec<String>, prefix: &str, o: &Option<Version>)
    ensures
        final(parts).deep_view() == old(parts).deep_view() + bound_part(prefix@, opt_version_view(*o)),
{
    let ghost before = parts.deep_view();
    match o {
        Some(v) => {
            let t = v.to_string();
            parts.push(concat(prefix, t.as_str()));
            assert(parts.deep_view() =~= before + bound_part(prefix@, opt_version_view(*o)));
        },
        None => {
            assert(parts.deep_view() =~= before + bound_part(prefix@, opt_version_view(*o)));
        },
    }
}

/// Joins `parts` with `sep` between neighbours.
pub fn join_strings(parts: &Vec<String>, sep: &str) -> (r: String)
    ensures
        r@ == join(parts.deep_view(), sep@),
{
    let mut r = String::new();
    let mut i: usize = 0;
    while i < parts.len()
        invariant
            i <= parts.len(),
            r@ == join(parts.deep_view().take(i as int), sep@),
        decreases parts.len() - i,
    {
        proof {
            assert(parts.deep_view().take(i + 1).drop_last() =~= parts.deep_view().take(i as int));
            assert(parts.deep_view().take(i + 1).last() == parts@[i as int]@);
        }
        if i > 0 {
            r.append(sep);
        } else {
            assert(parts.deep_view().take(1) =~= seq![parts@[0]@]);
        }
        r.append(parts[i].as_str());
        i = i + 1;
    }
    assert(parts.deep_view().take(parts.len() as int) =~= parts.deep_view());
    r
}

impl RangeData {
    /// The text of the bounds: `*` when there is none.
    pub fn to_string(&self) -> (r: String)
        ensures
            r@ == range_text(Some(self@)),
    {
        let mut parts: Vec<String> = Vec::new();
        push_bound_part(&mut parts, "< ", &self.strictly_earlier);
        push_bound_part(&mut parts, "<= ", &self.earlier_or_equal);
        push_bound_part(&mut parts, "= ", &self.exactly_equal);
        push_bound_part(&mut parts, ">= ", &self.later_or_equal);
        push_bound_part(&mut parts, "> ", &self.strictly_later);
        assert(parts.deep_view() =~= bound_parts(self@));
        if parts.len() == 0 {
            string_of("*")
        } else {
            join_strings(&parts, ", ")
        }
    }
}

impl VersionRange {
    /// The text of the range: `*`, or its bounds such as `>= 1.0, < 2.0`.
    pub fn to_string(&self) -> (r: String)
        ensures
            r@ == range_text(self@),
    {
        match &self._range_data {
            None => string_of("*"),
            Some(rd) => rd.to_string(),
        }
    }
}

impl std::str::FromStr for Version {
    type Err = String;

    fn from_str(s: &str) -> (r: Result<Version, String>)
        ensures
            match r {
                Ok(v) => is_version_text(s@) && v@ == s@,
                Err(e) => !is_version_text(s@) && e@ == "There is no values for Version struct."@,
            },
    {
        Version::from_str(s)
    }
}

impl std::str::FromStr for VersionRange {
    type Err = String;

    fn from_str(s: &str) -> (r: Result<VersionRange, String>)
        ensures
            match r {
                Ok(vr) => parse_range(s@) == Ok::<Option<RangeView>, Seq<char>>(vr@),
                Err(e) => parse_range(s@) == Err::<Option<RangeView>, Seq<char>>(e@),
            },
    {
        VersionRange::from_str(s)
    }
}

} // verus!

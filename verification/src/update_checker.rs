//! Release checking: how two release tags compare, which tag is the latest,
//! and what the user is told about it.

use vstd::prelude::*;
use vstd::string::StrSliceExecFns;
use std::cmp::Ordering;
use crate::codec::{parse_bounded, parse_unsigned};
use crate::text::{push_char, spec_text_order, text_order, views};

verus! {

/// The largest value a version component may have to count as a number.
pub const COMPONENT_MAX: u64 = 4294967295;

/// `s` without its leading `v` characters, as `trim_start_matches('v')` gives it.
pub open spec fn strip_leading_v(s: Seq<char>) -> Seq<char>
    decreases s.len(),
{
    if s.len() > 0 && s[0] == 'v' {
        strip_leading_v(s.drop_first())
    } else {
        s
    }
}

pub open spec fn is_version_separator(c: char) -> bool {
    c == '.' || c == '-'
}

/// The pieces of `s` between dots and dashes; always at least one.
pub open spec fn split_version(s: Seq<char>) -> Seq<Seq<char>>
    decreases s.len(),
{
    if s.len() == 0 {
        seq![Seq::<char>::empty()]
    } else {
        let p = split_version(s.drop_last());
        if is_version_separator(s.last()) {
            p.push(Seq::empty())
        } else {
            p.update(p.len() - 1, p.last().push(s.last()))
        }
    }
}

proof fn lemma_split_version_nonempty(s: Seq<char>)
    ensures
        split_version(s).len() >= 1,
    decreases s.len(),
{
    if s.len() > 0 {
        lemma_split_version_nonempty(s.drop_last());
    }
}

/// The components of a version string.
pub open spec fn spec_parse_version(s: Seq<char>) -> Seq<Seq<char>> {
    split_version(strip_leading_v(s))
}

/// The first decision the numeric components take from position `i` on:
/// -1 or 1 at the first pair of numbers that differ, 0 when the shorter list
/// runs out or a component is not a number.
pub open spec fn numeric_order(a: Seq<Seq<char>>, b: Seq<Seq<char>>, i: int) -> int
    decreases a.len() - i,
{
    if i < 0 || i >= a.len() || i >= b.len() {
        0
    } else {
        match (parse_unsigned(a[i], COMPONENT_MAX as int), parse_unsigned(b[i], COMPONENT_MAX as int)) {
            (Some(x), Some(y)) => if x < y {
                -1
            } else if x > y {
                1
            } else {
                numeric_order(a, b, i + 1)
            },
            _ => 0,
        }
    }
}

/// How version `a` compares with version `b`: -1 older, 1 newer, 0 same.
/// Numeric components decide first; with those equal, fewer components is
/// newer (no pre-release tag); with as many components, the strings compare
/// in reverse.
pub open spec fn spec_compare_versions(a: Seq<char>, b: Seq<char>) -> int {
    let pa = spec_parse_version(a);
    let pb = spec_parse_version(b);
    let v = numeric_order(pa, pb, 0);
    if v != 0 {
        v
    } else if pa.len() == pb.len() {
        spec_text_order(b, a)
    } else if pa.len() < pb.len() {
        1
    } else {
        -1
    }
}

/// The `Ordering` that a sign stands for.
pub open spec fn ordering_from_sign(v: int) -> Ordering {
    if v < 0 {
        Ordering::Less
    } else if v > 0 {
        Ordering::Greater
    } else {
        Ordering::Equal
    }
}

/// Removes the leading `v` characters of a tag.
pub fn trim_leading_v(s: &str) -> (r: String)
    ensures
        r@ == strip_leading_v(s@),
{
    let n = s.unicode_len();
    let mut i: usize = 0;
    proof {
        assert(s@.subrange(0, n as int) =~= s@);
    }
    while i < n && s.get_char(i) == 'v'
        invariant
            n == s@.len(),
            i <= n,
            strip_leading_v(s@) == strip_leading_v(s@.subrange(i as int, n as int)),
        decreases n - i,
    {
        proof {
            let sub = s@.subrange(i as int, n as int);
            assert(sub[0] == s@[i as int]);
            assert(sub.drop_first() =~= s@.subrange(i as int + 1, n as int));
        }
        i = i + 1;
    }
    proof {
        let sub = s@.subrange(i as int, n as int);
        if i < n {
            assert(sub[0] == s@[i as int]);
        }
    }
    String::from_str(s.substring_char(i, n))
}

/// Splits a version string into its components.
pub fn parse_version(version: &str) -> (r: Vec<String>)
    ensures
        views(r@) == spec_parse_version(version@),
{
    let trimmed = trim_leading_v(version);
    let t = trimmed.as_str();
    let n = t.unicode_len();
    let mut pieces: Vec<String> = Vec::new();
    let mut current = String::new();
    let mut i: usize = 0;
    proof {
        assert(t@.subrange(0, 0) =~= Seq::<char>::empty());
    }
    while i < n
        invariant
            n == t@.len(),
            i <= n,
            views(pieces@).push(current@) == split_version(t@.subrange(0, i as int)),
        decreases n - i,
    {
        let c = t.get_char(i);
        proof {
            let sub = t@.subrange(0, i as int + 1);
            assert(sub.drop_last() =~= t@.subrange(0, i as int));
            assert(sub.last() == c);
            lemma_split_version_nonempty(t@.subrange(0, i as int));
        }
        let ghost old_pieces = views(pieces@);
        let ghost old_current = current@;
        if c == '.' || c == '-' {
            let mut done = String::new();
            std::mem::swap(&mut done, &mut current);
            pieces.push(done);
            proof {
                assert(views(pieces@) =~= old_pieces.push(old_current));
                assert(views(pieces@).push(current@) =~= old_pieces.push(old_current).push(Seq::empty()));
            }
        } else {
            push_char(&mut current, c);
            proof {
                let p = old_pieces.push(old_current);
                assert(views(pieces@).push(current@) =~= p.update(p.len() - 1, p.last().push(c)));
            }
        }
        i = i + 1;
    }
    let ghost before = views(pieces@);
    pieces.push(current);
    proof {
        assert(t@.subrange(0, n as int) =~= t@);
        assert(views(pieces@) =~= before.push(current@));
    }
    pieces
}

/// The decision of the numeric components of two parsed versions.
fn numeric_verdict(pa: &Vec<String>, pb: &Vec<String>) -> (r: i8)
    ensures
        r == numeric_order(views(pa@), views(pb@), 0),
{
    let mut i: usize = 0;
    while i < pa.len() && i < pb.len()
        invariant
            i <= pa@.len(),
            i <= pb@.len(),
            numeric_order(views(pa@), views(pb@), 0) == numeric_order(views(pa@), views(pb@), i as int),
        decreases pa@.len() - i,
    {
        let x = parse_bounded(pa[i].as_str(), COMPONENT_MAX);
        let y = parse_bounded(pb[i].as_str(), COMPONENT_MAX);
        proof {
            assert(views(pa@)[i as int] == pa@[i as int]@);
            assert(views(pb@)[i as int] == pb@[i as int]@);
        }
        match x {
            None => {
                return 0;
            },
            Some(xv) => match y {
                None => {
                    return 0;
                },
                Some(yv) => {
                    if xv < yv {
                        return -1;
                    }
                    if xv > yv {
                        return 1;
                    }
                },
            },
        }
        i = i + 1;
    }
    0
}

/// How version `a` compares with version `b`, as a sign.
pub fn version_order(a: &str, b: &str) -> (r: i8)
    ensures
        r == spec_compare_versions(a@, b@),
{
    let pa = parse_version(a);
    let pb = parse_version(b);
    let v = numeric_verdict(&pa, &pb);
    if v != 0 {
        return v;
    }
    if pa.len() == pb.len() {
        text_order(b, a)
    } else if pa.len() < pb.len() {
        1
    } else {
        -1
    }
}

/// How version `a` compares with version `b`.
pub fn compare_versions(a: &str, b: &str) -> (r: Ordering)
    ensures
        r == ordering_from_sign(spec_compare_versions(a@, b@)),
{
    let v = version_order(a, b);
    if v < 0 {
        Ordering::Less
    } else if v > 0 {
        Ordering::Greater
    } else {
        Ordering::Equal
    }
}

proof fn lemma_text_order_antisymmetric(a: Seq<char>, b: Seq<char>)
    ensures
        spec_text_order(a, b) == -spec_text_order(b, a),
    decreases a.len(),
{
    if a.len() > 0 && b.len() > 0 {
        lemma_text_order_antisymmetric(a.drop_first(), b.drop_first());
    }
}

proof fn lemma_numeric_order_antisymmetric(a: Seq<Seq<char>>, b: Seq<Seq<char>>, i: int)
    ensures
        numeric_order(a, b, i) == -numeric_order(b, a, i),
    decreases a.len() - i,
{
    if 0 <= i < a.len() && i < b.len() {
        lemma_numeric_order_antisymmetric(a, b, i + 1);
    }
}

/// Comparing the other way round gives the reverse answer.
pub proof fn law_compare_versions_antisymmetric(a: Seq<char>, b: Seq<char>)
    ensures
        spec_compare_versions(a, b) == -spec_compare_versions(b, a),
{
    lemma_numeric_order_antisymmetric(spec_parse_version(a), spec_parse_version(b), 0);
    lemma_text_order_antisymmetric(a, b);
}

/// Every version compares equal to itself.
pub proof fn law_compare_versions_reflexive(a: Seq<char>)
    ensures
        spec_compare_versions(a, a) == 0,
{
    law_compare_versions_antisymmetric(a, a);
}

/// The number a version component stands for, if it is one.
pub open spec fn component_number(c: Seq<char>) -> Option<int> {
    parse_unsigned(c, COMPONENT_MAX as int)
}

proof fn lemma_first_difference_decides(a: Seq<Seq<char>>, b: Seq<Seq<char>>, i: int, k: int)
    requires
        0 <= i <= k,
        k < a.len(),
        k < b.len(),
        forall|j: int| i <= j < k ==> (#[trigger] component_number(a[j])) is Some
            && component_number(a[j]) == component_number(b[j]),
        component_number(a[k]) is Some,
        component_number(b[k]) is Some,
    ensures
        component_number(a[k])->0 > component_number(b[k])->0 ==> numeric_order(a, b, i) == 1,
        component_number(a[k])->0 < component_number(b[k])->0 ==> numeric_order(a, b, i) == -1,
    decreases k - i,
{
    if i < k {
        assert(component_number(a[i]) is Some);
        lemma_first_difference_decides(a, b, i + 1, k);
    }
}

/// The first numeric component in which two versions differ decides: when the
/// components before position `k` are the same numbers and component `k` of
/// `a` is a larger number than that of `b`, `a` is newer, and with a smaller
/// number it is older, whatever follows.
pub proof fn law_first_differing_number_decides(a: Seq<char>, b: Seq<char>, k: int)
    requires
        0 <= k < spec_parse_version(a).len(),
        k < spec_parse_version(b).len(),
        forall|j: int| 0 <= j < k ==> (#[trigger] component_number(spec_parse_version(a)[j])) is Some
            && component_number(spec_parse_version(a)[j]) == component_number(spec_parse_version(b)[j]),
        component_number(spec_parse_version(a)[k]) is Some,
        component_number(spec_parse_version(b)[k]) is Some,
    ensures
        component_number(spec_parse_version(a)[k])->0 > component_number(spec_parse_version(b)[k])->0
            ==> ordering_from_sign(spec_compare_versions(a, b)) == Ordering::Greater,
        component_number(spec_parse_version(a)[k])->0 < component_number(spec_parse_version(b)[k])->0
            ==> ordering_from_sign(spec_compare_versions(a, b)) == Ordering::Less,
{
    lemma_first_difference_decides(spec_parse_version(a), spec_parse_version(b), 0, k);
}

/// The position of the latest of the first `n` tags: scanning in order, a tag
/// takes the place of the pick so far only when it compares newer, so the
/// first of equally new tags is kept.
pub open spec fn latest_index(tags: Seq<Seq<char>>, n: int) -> int
    decreases n,
{
    if n <= 1 {
        0
    } else {
        let best = latest_index(tags, n - 1);
        if spec_compare_versions(tags[n - 1], tags[best]) > 0 {
            n - 1
        } else {
            best
        }
    }
}

proof fn lemma_latest_in_range(tags: Seq<Seq<char>>, n: int)
    requires
        n >= 1,
    ensures
        0 <= latest_index(tags, n) < n,
    decreases n,
{
    if n > 1 {
        lemma_latest_in_range(tags, n - 1);
    }
}

/// The position of the latest tag, or `None` when there is none.
pub fn latest_tag(tags: &Vec<String>) -> (r: Option<usize>)
    ensures
        tags@.len() == 0 <==> r is None,
        r is Some ==> r->0 == latest_index(views(tags@), tags@.len() as int) && r->0 < tags@.len(),
{
    if tags.len() == 0 {
        return None;
    }
    let mut best: usize = 0;
    let mut i: usize = 1;
    while i < tags.len()
        invariant
            1 <= i <= tags@.len(),
            best == latest_index(views(tags@), i as int),
            best < i,
        decreases tags@.len() - i,
    {
        proof {
            assert(views(tags@)[i as int] == tags@[i as int]@);
            assert(views(tags@)[best as int] == tags@[best as int]@);
        }
        if version_order(tags[i].as_str(), tags[best].as_str()) > 0 {
            best = i;
        }
        i = i + 1;
    }
    Some(best)
}

/// The outcome of a release check.
pub struct UpdateCheck {
    /// The latest tag without its leading `v`s.
    pub latest_version: String,
    /// Whether that version is newer than the running one.
    pub update_available: bool,
}

/// Picks the latest of the published tags and compares it with the running
/// version; `None` when nothing is published.
pub fn evaluate_tags(tags: &Vec<String>, current_version: &str) -> (r: Option<UpdateCheck>)
    ensures
        tags@.len() == 0 ==> r is None,
        tags@.len() > 0 ==> {
            let latest = strip_leading_v(views(tags@)[latest_index(views(tags@), tags@.len() as int)]);
            &&& r is Some
            &&& r->0.latest_version@ == latest
            &&& r->0.update_available == (spec_compare_versions(latest, current_version@) > 0)
        },
{
    match latest_tag(tags) {
        None => None,
        Some(k) => {
            let latest = trim_leading_v(tags[k].as_str());
            proof {
                assert(views(tags@)[k as int] == tags@[k as int]@);
            }
            let newer = version_order(latest.as_str(), current_version) > 0;
            Some(UpdateCheck { latest_version: latest, update_available: newer })
        },
    }
}

/// A notification shown to the user.
pub struct Notice {
    pub title: String,
    pub description: String,
    pub button_text: String,
}

/// The notification that reports a release check.
pub fn update_notice(check: &UpdateCheck, current_version: &str) -> (r: Notice)
    ensures
        check.update_available ==> r.title@ == "Update Available"@
            && r.description@ == "Version "@ + check.latest_version@ + " is now available"@
            && r.button_text@ == "Close"@,
        !check.update_available ==> r.title@ == "You're Up to Date"@
            && r.description@ == "You're running the latest version of Drop ("@ + current_version@ + ")"@
            && r.button_text@ == "Great!"@,
{
    if check.update_available {
        let mut description = String::from_str("Version ");
        description.append(check.latest_version.as_str());
        description.append(" is now available");
        Notice {
            title: String::from_str("Update Available"),
            description,
            button_text: String::from_str("Close"),
        }
    } else {
        let mut description = String::from_str("You're running the latest version of Drop (");
        description.append(current_version);
        description.append(")");
        Notice {
            title: String::from_str("You're Up to Date"),
            description,
            button_text: String::from_str("Great!"),
        }
    }
}

} // verus!

//! Product backlog items of a sprint and their order in the workflow.

use vstd::prelude::*;
use vstd::string::*;
use crate::text::{ascii_lowercase, contains_str, has_substring};

verus! {

/// A decimal number as the JSON documents of the cache and of the API carry
/// it: `mantissa * 10^exponent`, negated when `positive` is false.
#[derive(Clone, Copy, Debug)]
pub struct JsonNumber {
    pub positive: bool,
    pub mantissa: u64,
    pub exponent: i16,
}

/// A single Product Backlog Item (PBI) from a sprint.
#[derive(Clone, Debug)]
pub struct Pbi {
    pub key: String,
    pub summary: String,
    pub status: String,
    pub assignee: String,
    pub issue_type: String,
    /// Rich details, filled in when the item is loaded.
    pub description: Option<String>,
    pub priority: Option<String>,
    pub story_points: Option<JsonNumber>,
    pub labels: Vec<String>,
    pub loaded: bool,
}

/// The mathematical content of a [`Pbi`].
pub struct PbiView {
    pub key: Seq<char>,
    pub summary: Seq<char>,
    pub status: Seq<char>,
    pub assignee: Seq<char>,
    pub issue_type: Seq<char>,
    pub description: Option<Seq<char>>,
    pub priority: Option<Seq<char>>,
    pub story_points: Option<JsonNumber>,
    pub labels: Seq<Seq<char>>,
    pub loaded: bool,
}

pub open spec fn opt_string_view(o: Option<String>) -> Option<Seq<char>> {
    match o {
        Some(s) => Some(s@),
        None => None,
    }
}

pub open spec fn strings_view(v: Seq<String>) -> Seq<Seq<char>> {
    v.map_values(|s: String| s@)
}

impl View for Pbi {
    type V = PbiView;

    open spec fn view(&self) -> PbiView {
        PbiView {
            key: self.key@,
            summary: self.summary@,
            status: self.status@,
            assignee: self.assignee@,
            issue_type: self.issue_type@,
            description: opt_string_view(self.description),
            priority: opt_string_view(self.priority),
            story_points: self.story_points,
            labels: strings_view(self.labels@),
            loaded: self.loaded,
        }
    }
}

/// The views of a sequence of items.
pub open spec fn pbis_view(s: Seq<Pbi>) -> Seq<PbiView> {
    s.map_values(|p: Pbi| p@)
}

/// What `str::to_lowercase` returns for `s`: the Unicode lowercase mapping,
/// which depends on `s` alone.
pub uninterp spec fn lowercase_of(s: Seq<char>) -> Seq<char>;

/// `str::to_lowercase`; its result is named by `lowercase_of`. On ASCII text
/// the Unicode lowercase mapping is the ASCII one: 'A' to 'Z' become 'a' to
/// 'z' and every other character stays.
#[verifier::external_body]
pub(crate) fn to_lowercase(s: &str) -> (r: String)
    ensures
        r@ == lowercase_of(s@),
        vstd::utf8::is_ascii_chars(s@) ==> r@ == ascii_lowercase(s@),
{
    s.to_lowercase()
}

pub open spec fn done_word() -> Seq<char> { seq!['d', 'o', 'n', 'e'] }
pub open spec fn closed_word() -> Seq<char> { seq!['c', 'l', 'o', 's', 'e', 'd'] }
pub open spec fn resolved_word() -> Seq<char> { seq!['r', 'e', 's', 'o', 'l', 'v', 'e', 'd'] }
pub open spec fn blocked_word() -> Seq<char> { seq!['b', 'l', 'o', 'c', 'k', 'e', 'd'] }
pub open spec fn review_word() -> Seq<char> { seq!['r', 'e', 'v', 'i', 'e', 'w'] }
pub open spec fn progress_word() -> Seq<char> { seq!['p', 'r', 'o', 'g', 'r', 'e', 's', 's'] }

/// Workflow rank of an already lowercased status: lower is earlier.
/// To Do (anything unrecognised) 0, In Progress 1, In Review 2, Blocked 3,
/// Done / Closed / Resolved 4.
pub open spec fn status_rank_of(lowered: Seq<char>) -> u8 {
    if has_substring(lowered, done_word()) || has_substring(lowered, closed_word())
        || has_substring(lowered, resolved_word()) {
        4
    } else if has_substring(lowered, blocked_word()) {
        3
    } else if has_substring(lowered, review_word()) {
        2
    } else if has_substring(lowered, progress_word()) {
        1
    } else {
        0
    }
}

/// The sort key of a status string.
pub open spec fn status_key_of(status: Seq<char>) -> u8 {
    status_rank_of(lowercase_of(status))
}

/// The sort key of an item.
pub open spec fn pbi_key(p: PbiView) -> u8 {
    status_key_of(p.status)
}

/// Workflow rank of a status that is already in lowercase.
pub fn status_rank(lowered: &str) -> (r: u8)
    ensures
        r == status_rank_of(lowered@),
        r <= 4,
{
    proof {
        reveal_strlit("done");
        reveal_strlit("closed");
        reveal_strlit("resolved");
        reveal_strlit("blocked");
        reveal_strlit("review");
        reveal_strlit("progress");
        assert("done"@ =~= done_word());
        assert("closed"@ =~= closed_word());
        assert("resolved"@ =~= resolved_word());
        assert("blocked"@ =~= blocked_word());
        assert("review"@ =~= review_word());
        assert("progress"@ =~= progress_word());
    }
    if contains_str(lowered, "done") || contains_str(lowered, "closed")
        || contains_str(lowered, "resolved") {
        4
    } else if contains_str(lowered, "blocked") {
        3
    } else if contains_str(lowered, "review") {
        2
    } else if contains_str(lowered, "progress") {
        1
    } else {
        0
    }
}

/// Numeric sort key for a status string: lower = earlier in the workflow.
///
/// Order: To Do → In Progress → In Review → Blocked → Done / Closed
pub fn status_sort_key(status: &str) -> (r: u8)
    ensures
        r == status_key_of(status@),
        vstd::utf8::is_ascii_chars(status@) ==> r == status_rank_of(ascii_lowercase(status@)),
        r <= 4,
{
    let s = to_lowercase(status);
    status_rank(s.as_str())
}

/// The items of `s` whose sort key is `k`, in their order in `s`.
pub open spec fn stage(s: Seq<PbiView>, k: u8) -> Seq<PbiView>
    decreases s.len(),
{
    if s.len() == 0 {
        Seq::empty()
    } else if pbi_key(s.last()) == k {
        stage(s.drop_last(), k).push(s.last())
    } else {
        stage(s.drop_last(), k)
    }
}

/// `s` in ascending workflow order, items of one stage kept in their order:
/// what a stable sort by `pbi_key` gives.
pub open spec fn sorted_by_status(s: Seq<PbiView>) -> Seq<PbiView> {
    stage(s, 0) + stage(s, 1) + stage(s, 2) + stage(s, 3) + stage(s, 4)
}

/// Sort a PBI list in ascending workflow order (new → resolved); items with
/// the same status rank keep their relative order.
pub fn sort_by_status(pbis: &mut Vec<Pbi>)
    ensures
        pbis_view(final(pbis)@) == sorted_by_status(pbis_view(old(pbis)@)),
{
    let ghost orig = pbis_view(pbis@);
    let mut b0: Vec<Pbi> = Vec::new();
    let mut b1: Vec<Pbi> = Vec::new();
    let mut b2: Vec<Pbi> = Vec::new();
    let mut b3: Vec<Pbi> = Vec::new();
    let mut b4: Vec<Pbi> = Vec::new();
    let ghost mut i: int = 0;
    while pbis.len() > 0
        invariant
            0 <= i <= orig.len(),
            pbis_view(pbis@) == orig.subrange(i, orig.len() as int),
            pbis_view(b0@) == stage(orig.subrange(0, i), 0),
            pbis_view(b1@) == stage(orig.subrange(0, i), 1),
            pbis_view(b2@) == stage(orig.subrange(0, i), 2),
            pbis_view(b3@) == stage(orig.subrange(0, i), 3),
            pbis_view(b4@) == stage(orig.subrange(0, i), 4),
        decreases pbis.len(),
    {
        let ghost before = pbis@;
        let p = pbis.remove(0);
        assert(pbis_view(before)[0] == p@);
        assert(pbis_view(before).len() == before.len());
        assert(i < orig.len());
        assert(orig[i] == orig.subrange(i, orig.len() as int)[0]);
        assert(pbis_view(pbis@) =~= pbis_view(before).subrange(1, before.len() as int));
        assert(orig.subrange(0, i + 1).drop_last() =~= orig.subrange(0, i));
        assert(orig.subrange(0, i + 1).last() == p@);
        let k = status_sort_key(p.status.as_str());
        if k == 0 {
            b0.push(p);
        } else if k == 1 {
            b1.push(p);
        } else if k == 2 {
            b2.push(p);
        } else if k == 3 {
            b3.push(p);
        } else {
            b4.push(p);
        }
        proof {
            i = i + 1;
            assert(pbis_view(b0@) =~= stage(orig.subrange(0, i), 0));
            assert(pbis_view(b1@) =~= stage(orig.subrange(0, i), 1));
            assert(pbis_view(b2@) =~= stage(orig.subrange(0, i), 2));
            assert(pbis_view(b3@) =~= stage(orig.subrange(0, i), 3));
            assert(pbis_view(b4@) =~= stage(orig.subrange(0, i), 4));
            assert(pbis_view(pbis@) =~= orig.subrange(i, orig.len() as int));
        }
    }
    assert(orig.subrange(0, i) =~= orig);
    pbis.append(&mut b0);
    pbis.append(&mut b1);
    pbis.append(&mut b2);
    pbis.append(&mut b3);
    pbis.append(&mut b4);
    assert(pbis_view(pbis@) =~= sorted_by_status(orig));
}

impl Pbi {
    /// A copy of the item.
    pub fn duplicate(&self) -> (r: Pbi)
        ensures
            r@ == self@,
    {
        let description = match &self.description {
            Some(d) => Some(d.clone()),
            None => None,
        };
        let priority = match &self.priority {
            Some(p) => Some(p.clone()),
            None => None,
        };
        let mut labels: Vec<String> = Vec::new();
        let n = self.labels.len();
        let mut i: usize = 0;
        while i < n
            invariant
                n == self.labels@.len(),
                i <= n,
                strings_view(labels@) == strings_view(self.labels@).subrange(0, i as int),
            decreases n - i,
        {
            let ghost before = labels@;
            let c = self.labels[i].clone();
            assert(c@ == self.labels@[i as int]@);
            labels.push(c);
            assert(strings_view(labels@) =~= strings_view(before).push(c@));
            i = i + 1;
            assert(strings_view(labels@) =~= strings_view(self.labels@).subrange(0, i as int));
        }
        assert(strings_view(self.labels@).subrange(0, n as int) =~= strings_view(self.labels@));
        Pbi {
            key: self.key.clone(),
            summary: self.summary.clone(),
            status: self.status.clone(),
            assignee: self.assignee.clone(),
            issue_type: self.issue_type.clone(),
            description,
            priority,
            story_points: self.story_points,
            labels,
            loaded: self.loaded,
        }
    }
}

} // verus!

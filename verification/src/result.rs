//! The immutable ordered aggregate of one evaluation's output values, with
//! filtered text rendering, bounds-checked indexing, containment and
//! comparison.

use vstd::prelude::*;
use vstd::string::StringExecFns;

use crate::value::BoundsError;
use crate::value::MQValue;
use crate::value::ValueView;
use crate::value::elem_views;
use crate::value::eq_view;
use crate::value::gt_elems;
use crate::value::lemma_elem_views_full;
use crate::value::len_of;
use crate::value::lt_elems;
use crate::value::render;
use crate::value::value_view;

verus! {

/// The rendered lines of the first `n` values: every value whose length is
/// zero is filtered out, the rest render in order.
pub open spec fn lines_upto(vs: Seq<ValueView>, n: int) -> Seq<Seq<char>>
    decreases n,
{
    if n <= 0 || n > vs.len() {
        Seq::empty()
    } else {
        lines_upto(vs, n - 1) + if len_of(vs[n - 1]) == 0 {
            Seq::empty()
        } else {
            seq![render(vs[n - 1])]
        }
    }
}

/// The rendered lines of an aggregate: zero-length values filtered out, the
/// rest rendered in order.
pub open spec fn rendered_lines(vs: Seq<ValueView>) -> Seq<Seq<char>> {
    lines_upto(vs, vs.len() as int)
}

/// The lines from index `i` on, joined by newlines.
pub open spec fn join_lines(lines: Seq<Seq<char>>, i: int) -> Seq<char>
    decreases lines.len() - i,
{
    if 0 <= i < lines.len() {
        lines[i] + if i + 1 < lines.len() {
            "\n"@ + join_lines(lines, i + 1)
        } else {
            Seq::empty()
        }
    } else {
        Seq::empty()
    }
}

/// The text of an aggregate: its rendered lines joined by newlines.
pub open spec fn text_of(vs: Seq<ValueView>) -> Seq<char> {
    join_lines(rendered_lines(vs), 0)
}

/// Aggregates are equal when their raw lengths match and the values are
/// pairwise equal at every position.
pub open spec fn rs_eq(a: Seq<ValueView>, b: Seq<ValueView>) -> bool {
    a.len() == b.len() && (forall|i: int| 0 <= i < a.len() ==> eq_view(#[trigger] a[i], b[i]))
}

/// Whether some value of the raw sequence equals `x`.
pub open spec fn rs_contains(vs: Seq<ValueView>, x: ValueView) -> bool {
    exists|i: int| 0 <= i < vs.len() && eq_view(#[trigger] vs[i], x)
}

/// Aggregate "less than", the same length-first rule as an array: a shorter
/// aggregate is less when the raw lengths differ; at equal lengths the first
/// pair that is not equal decides via the values' own order, and false when
/// no pair differs.
pub open spec fn rs_lt(a: Seq<ValueView>, b: Seq<ValueView>) -> bool {
    if a.len() != b.len() {
        a.len() < b.len()
    } else {
        lt_elems(a, b, 0)
    }
}

/// Aggregate "greater than", the mirror of `rs_lt`.
pub open spec fn rs_gt(a: Seq<ValueView>, b: Seq<ValueView>) -> bool {
    if a.len() != b.len() {
        a.len() > b.len()
    } else {
        gt_elems(a, b, 0)
    }
}

/// Aggregate "greater than" mirrors aggregate "less than": one aggregate is
/// greater than another exactly when the other is less than it.
pub proof fn lemma_rs_gt_is_rs_lt_flipped(a: Seq<ValueView>, b: Seq<ValueView>)
    ensures
        rs_gt(a, b) == rs_lt(b, a),
{
    if a.len() == b.len() {
        crate::value::lemma_gt_elems_is_lt_elems_flipped(a, b, 0);
    }
}

/// One evaluation's full, unfiltered output: an immutable ordered sequence of
/// values.
#[derive(Debug)]
pub struct MQResult {
    pub values: Vec<MQValue>,
}

impl View for MQResult {
    type V = Seq<ValueView>;

    open spec fn view(&self) -> Seq<ValueView> {
        elem_views(self.values@, 0)
    }
}

/// Joins the lines from index `i` on by newlines.
fn join_strings(v: &Vec<String>, i: usize) -> (r: String)
    ensures
        r@ == join_lines(v@.map_values(|s: String| s@), i as int),
    decreases v@.len() - i,
{
    if i < v.len() {
        let mut s = v[i].clone();
        if i + 1 < v.len() {
            s.append("\n");
            let rest = join_strings(v, i + 1);
            s.append(rest.as_str());
        }
        proof {
            assert(s@ =~= join_lines(v@.map_values(|s2: String| s2@), i as int));
        }
        s
    } else {
        String::new()
    }
}

impl MQResult {
    /// Wraps the full, unfiltered output of one evaluation.
    pub fn from_values(values: Vec<MQValue>) -> (r: MQResult)
        ensures
            r@ == elem_views(values@, 0),
    {
        MQResult { values }
    }

    /// The raw, unfiltered count of values; this is the bound indexing uses.
    pub fn len(&self) -> (r: usize)
        ensures
            r == self@.len(),
    {
        proof {
            lemma_elem_views_full(self.values@);
        }
        self.values.len()
    }

    /// The rendered lines: values of length zero are filtered out, the rest
    /// render in order.
    pub fn values(&self) -> (r: Vec<String>)
        ensures
            r@.map_values(|s: String| s@) == rendered_lines(self@),
    {
        proof {
            lemma_elem_views_full(self.values@);
        }
        let ghost vs = elem_views(self.values@, 0);
        let mut out: Vec<String> = Vec::new();
        let mut i: usize = 0;
        while i < self.values.len()
            invariant
                i <= self.values@.len(),
                vs == elem_views(self.values@, 0),
                vs.len() == self.values@.len(),
                forall|j: int| 0 <= j < vs.len() ==> vs[j] == value_view(self.values@[j]),
                out@.map_values(|s: String| s@) == lines_upto(vs, i as int),
            decreases self.values@.len() - i,
        {
            let v = &self.values[i];
            let ghost prev = out@;
            if v.len() != 0 {
                out.push(v.text());
            }
            i += 1;
            proof {
                assert(out@.map_values(|s: String| s@) =~= lines_upto(vs, i as int));
            }
        }
        out
    }

    /// The rendered lines joined by newlines. Values of length zero vanish
    /// from the text even though they count toward `len`.
    pub fn text(&self) -> (r: String)
        ensures
            r@ == text_of(self@),
    {
        let lines = self.values();
        join_strings(&lines, 0)
    }

    /// Whether some value of the raw sequence equals `x`.
    pub fn contains(&self, x: &MQValue) -> (r: bool)
        ensures
            r == rs_contains(self@, x@),
    {
        proof {
            lemma_elem_views_full(self.values@);
        }
        let ghost vs = elem_views(self.values@, 0);
        let mut i: usize = 0;
        while i < self.values.len()
            invariant
                i <= self.values@.len(),
                vs == elem_views(self.values@, 0),
                vs.len() == self.values@.len(),
                forall|j: int| 0 <= j < vs.len() ==> vs[j] == value_view(self.values@[j]),
                forall|j: int| 0 <= j < i ==> !eq_view(#[trigger] vs[j], x@),
            decreases self.values@.len() - i,
        {
            if self.values[i].equals(x) {
                proof {
                    assert(eq_view(vs[i as int], x@));
                }
                return true;
            }
            i += 1;
        }
        false
    }

    /// Bounds-checked raw indexed access; an out-of-range index yields a
    /// `BoundsError` carrying that index and the raw length.
    pub fn get(&self, idx: usize) -> (r: Result<MQValue, BoundsError>)
        ensures
            idx < self@.len() ==> (r matches Ok(v) && v@ == self@[idx as int]),
            idx >= self@.len() ==> (r matches Err(e) && e.index == idx && e.length == self@.len()),
    {
        proof {
            lemma_elem_views_full(self.values@);
        }
        if idx < self.values.len() {
            Ok(self.values[idx].duplicate())
        } else {
            Err(BoundsError { index: idx, length: self.values.len() })
        }
    }

    /// Pairwise equality at equal raw lengths, as `rs_eq` states it.
    pub fn equals(&self, other: &MQResult) -> (r: bool)
        ensures
            r == rs_eq(self@, other@),
    {
        proof {
            lemma_elem_views_full(self.values@);
            lemma_elem_views_full(other.values@);
        }
        if self.values.len() != other.values.len() {
            false
        } else {
            let r = crate::value::eq_elems_exec(&self.values, &other.values, 0);
            proof {
                assert forall|i: int| 0 <= i < self.values@.len() implies eq_view(
                    #[trigger] elem_views(self.values@, 0)[i],
                    elem_views(other.values@, 0)[i],
                ) == eq_view(value_view(self.values@[i]), value_view(other.values@[i])) by {}
                assert forall|i: int| 0 <= i < self.values@.len() implies eq_view(
                    #[trigger] value_view(self.values@[i]),
                    value_view(other.values@[i]),
                ) == eq_view(elem_views(self.values@, 0)[i], elem_views(other.values@, 0)[i]) by {}
            }
            r
        }
    }

    /// The negation of `equals`.
    pub fn not_equals(&self, other: &MQResult) -> (r: bool)
        ensures
            r == !rs_eq(self@, other@),
    {
        !self.equals(other)
    }

    /// Aggregate "less than", as `rs_lt` states it: raw lengths decide when
    /// they differ, else the first pair that is not equal decides.
    pub fn less_than(&self, other: &MQResult) -> (r: bool)
        ensures
            r == rs_lt(self@, other@),
    {
        proof {
            lemma_elem_views_full(self.values@);
            lemma_elem_views_full(other.values@);
        }
        if self.values.len() != other.values.len() {
            self.values.len() < other.values.len()
        } else {
            crate::value::lt_elems_exec(&self.values, &other.values, 0)
        }
    }

    /// Aggregate "greater than", as `rs_gt` states it.
    pub fn greater_than(&self, other: &MQResult) -> (r: bool)
        ensures
            r == rs_gt(self@, other@),
    {
        proof {
            lemma_elem_views_full(self.values@);
            lemma_elem_views_full(other.values@);
        }
        if self.values.len() != other.values.len() {
            self.values.len() > other.values.len()
        } else {
            crate::value::gt_elems_exec(&self.values, &other.values, 0)
        }
    }
}

} // verus!

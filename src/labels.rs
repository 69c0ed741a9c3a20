use vstd::prelude::*;

use crate::decimal::{lemma_nat_text_injective, nat_text};
use crate::instruction::{InstrView, LogicalIns};
use crate::translator::{
    Counters, cmp_tag, counters_after, dot_index, end_label, is_comparison, module_of,
    next_cmp_number, return_label, static_symbol, true_label,
};

verus! {

/// The counters in force when instruction `i` of a run that started with `c0`
/// is translated.
pub open spec fn counters_before(c0: Counters, ins: Seq<InstrView>, i: int) -> Counters
    decreases i,
{
    if i <= 0 {
        c0
    } else {
        counters_after(ins[i - 1], counters_before(c0, ins, i - 1))
    }
}

pub open spec fn no_dot(s: Seq<char>) -> bool {
    forall|i: int| 0 <= i < s.len() ==> #[trigger] s[i] != '.'
}

proof fn lemma_dot_index(f: Seq<char>, i: int)
    requires
        0 <= i <= f.len(),
    ensures
        i <= dot_index(f, i) <= f.len(),
        forall|j: int| i <= j < dot_index(f, i) ==> #[trigger] f[j] != '.',
    decreases f.len() - i,
{
    if i < f.len() && f[i] != '.' {
        lemma_dot_index(f, i + 1);
    }
}

/// A module name never holds a dot.
pub proof fn lemma_module_has_no_dot(f: Seq<char>)
    ensures
        no_dot(module_of(f)),
{
    lemma_dot_index(f, 0);
    let m = module_of(f);
    assert forall|i: int| 0 <= i < m.len() implies #[trigger] m[i] != '.' by {
        assert(m[i] == f[i]);
    }
}

/// In `p + m + t + d` with a dot-free `m` and `t` starting with a dot, `m` and
/// `d` can be read back.
proof fn lemma_dotted_injective(
    p: Seq<char>,
    m1: Seq<char>,
    m2: Seq<char>,
    t: Seq<char>,
    d1: Seq<char>,
    d2: Seq<char>,
)
    requires
        no_dot(m1),
        no_dot(m2),
        t.len() > 0,
        t[0] == '.',
        p + m1 + t + d1 == p + m2 + t + d2,
    ensures
        m1 == m2,
        d1 == d2,
{
    let s1 = p + m1 + t + d1;
    let s2 = p + m2 + t + d2;
    let l = p.len() as int;
    if m1.len() < m2.len() {
        assert(s1[l + m1.len()] == t[0]);
        assert(s2[l + m1.len()] == m2[m1.len() as int]);
    } else if m2.len() < m1.len() {
        assert(s2[l + m2.len()] == t[0]);
        assert(s1[l + m2.len()] == m1[m2.len() as int]);
    } else {
        assert forall|i: int| 0 <= i < m1.len() implies m1[i] == m2[i] by {
            assert(s1[l + i] == m1[i]);
            assert(s2[l + i] == m2[i]);
        }
        assert(m1 =~= m2);
        let k = l + m1.len() + t.len();
        assert(d1 =~= s1.skip(k));
        assert(d2 =~= s2.skip(k));
    }
}

proof fn lemma_cmp_tag_starts_with_dot(k: LogicalIns)
    ensures
        cmp_tag(k).len() == 3,
        cmp_tag(k)[0] == '.',
{
    reveal_strlit(".EQ");
    reveal_strlit(".GT");
    reveal_strlit(".LT");
}

/// Labels of comparisons of one kind that carry different numbers differ,
/// whatever files they were translated in; no true-branch label is an end
/// label.
pub proof fn lemma_comparison_labels_distinct(
    f1: Seq<char>,
    f2: Seq<char>,
    k: LogicalIns,
    n1: nat,
    n2: nat,
)
    requires
        n1 != n2,
    ensures
        true_label(module_of(f1), k, n1) != true_label(module_of(f2), k, n2),
        end_label(module_of(f1), k, n1) != end_label(module_of(f2), k, n2),
        true_label(module_of(f1), k, n1) != end_label(module_of(f2), k, n2),
{
    let m1 = module_of(f1);
    let m2 = module_of(f2);
    lemma_module_has_no_dot(f1);
    lemma_module_has_no_dot(f2);
    lemma_cmp_tag_starts_with_dot(k);
    if true_label(m1, k, n1) == true_label(m2, k, n2) {
        lemma_dotted_injective("TRUE."@, m1, m2, cmp_tag(k), nat_text(n1), nat_text(n2));
        lemma_nat_text_injective(n1, n2);
    }
    if end_label(m1, k, n1) == end_label(m2, k, n2) {
        lemma_dotted_injective("END."@, m1, m2, cmp_tag(k), nat_text(n1), nat_text(n2));
        lemma_nat_text_injective(n1, n2);
    }
    reveal_strlit("TRUE.");
    reveal_strlit("END.");
    assert(true_label(m1, k, n1)[0] != end_label(m2, k, n2)[0]);
}

/// Return-address labels of different call sites differ.
pub proof fn lemma_return_labels_distinct(n1: nat, n2: nat)
    requires
        n1 != n2,
    ensures
        return_label(n1) != return_label(n2),
{
    let p = "return_address."@;
    if return_label(n1) == return_label(n2) {
        assert(nat_text(n1) =~= return_label(n1).skip(p.len() as int));
        assert(nat_text(n2) =~= return_label(n2).skip(p.len() as int));
        lemma_nat_text_injective(n1, n2);
    }
}

/// The cells of static variables of two different modules differ, whatever
/// their indices.
pub proof fn lemma_static_cells_distinct(
    f1: Seq<char>,
    f2: Seq<char>,
    index1: Seq<char>,
    index2: Seq<char>,
)
    requires
        module_of(f1) != module_of(f2),
    ensures
        static_symbol(module_of(f1), index1) != static_symbol(module_of(f2), index2),
{
    let m1 = module_of(f1);
    let m2 = module_of(f2);
    lemma_module_has_no_dot(f1);
    lemma_module_has_no_dot(f2);
    reveal_strlit(".");
    if static_symbol(m1, index1) == static_symbol(m2, index2) {
        assert(seq![] + m1 + "."@ + index1 =~= static_symbol(m1, index1));
        assert(seq![] + m2 + "."@ + index2 =~= static_symbol(m2, index2));
        lemma_dotted_injective(seq![], m1, m2, "."@, index1, index2);
    }
}

proof fn lemma_counters_grow(c0: Counters, ins: Seq<InstrView>, i: int, j: int)
    requires
        0 <= i <= j <= ins.len(),
    ensures
        counters_before(c0, ins, i).eq <= counters_before(c0, ins, j).eq,
        counters_before(c0, ins, i).gt <= counters_before(c0, ins, j).gt,
        counters_before(c0, ins, i).lt <= counters_before(c0, ins, j).lt,
        counters_before(c0, ins, i).call <= counters_before(c0, ins, j).call,
    decreases j - i,
{
    if i < j {
        lemma_counters_grow(c0, ins, i, j - 1);
    }
}

/// In one run, the comparisons of one kind at positions `i` and `j` get
/// labels that differ, wherever their files.
pub proof fn lemma_run_comparison_labels_distinct(
    c0: Counters,
    ins: Seq<InstrView>,
    files: Seq<Seq<char>>,
    k: LogicalIns,
    i: int,
    j: int,
)
    requires
        0 <= i < j < ins.len(),
        ins.len() == files.len(),
        is_comparison(k),
        ins[i] == InstrView::Logic(k),
        ins[j] == InstrView::Logic(k),
    ensures
        true_label(module_of(files[i]), k, next_cmp_number(counters_before(c0, ins, i), k))
            != true_label(module_of(files[j]), k, next_cmp_number(counters_before(c0, ins, j), k)),
        end_label(module_of(files[i]), k, next_cmp_number(counters_before(c0, ins, i), k))
            != end_label(module_of(files[j]), k, next_cmp_number(counters_before(c0, ins, j), k)),
{
    lemma_counters_grow(c0, ins, i + 1, j);
    let ni = next_cmp_number(counters_before(c0, ins, i), k);
    let nj = next_cmp_number(counters_before(c0, ins, j), k);
    assert(ni < nj);
    lemma_comparison_labels_distinct(files[i], files[j], k, ni, nj);
}

/// In one run, the calls at positions `i` and `j` get different
/// return-address labels.
pub proof fn lemma_run_return_labels_distinct(c0: Counters, ins: Seq<InstrView>, i: int, j: int)
    requires
        0 <= i < j < ins.len(),
        ins[i] is CallFunc,
        ins[j] is CallFunc,
    ensures
        return_label(counters_before(c0, ins, i).call + 1) != return_label(
            counters_before(c0, ins, j).call + 1,
        ),
{
    lemma_counters_grow(c0, ins, i + 1, j);
    lemma_return_labels_distinct(
        counters_before(c0, ins, i).call + 1,
        counters_before(c0, ins, j).call + 1,
    );
}

} // verus!

//! The Markdown report of an evaluated run.

use vstd::prelude::*;
use crate::text::{opt_view};
use vstd::seq_lib::{lemma_flatten_alt_concat, lemma_multiset_commutative};
use crate::model::{EvalEntry};
use crate::text::{decimal, decimal_chars, push_chars, push_str, string_from_chars};

verus! {

broadcast use vstd::string::group_string_axioms;

/// A name for what `format!("{:?}", s)` writes for a string `s`: the string
/// quoted, with its special characters escaped.
pub uninterp spec fn debug_str(s: Seq<char>) -> Seq<char>;

/// `s` as `{:?}` writes a string.
///
/// Trusted: the result is named by `debug_str`.
#[verifier::external_body]
fn debug_quoted(s: &str) -> (r: String)
    ensures
        r@ == debug_str(s@),
{
    format!("{:?}", s)
}

/// An optional string as `{:?}` writes it.
pub open spec fn debug_option(o: Option<Seq<char>>) -> Seq<char> {
    match o {
        Some(s) => "Some("@ + debug_str(s) + ")"@,
        None => "None"@,
    }
}

/// The number of entries that passed.
pub open spec fn passed_count(es: Seq<EvalEntry>) -> nat
    decreases es.len(),
{
    if es.len() == 0 {
        0
    } else {
        passed_count(es.drop_last()) + if es.last().passed {
            1nat
        } else {
            0nat
        }
    }
}

/// The report line of a failed entry.
pub open spec fn failure_line(e: EvalEntry) -> Seq<char> {
    "- "@ + e.block_id@ + " case "@ + decimal(e.case_index as nat) + ": expected "@
        + debug_option(opt_view(e.expected)) + ", got "@ + e.output@ + "\n"@
}

/// The report lines of the failed entries, in order.
pub open spec fn failure_lines(es: Seq<EvalEntry>) -> Seq<char>
    decreases es.len(),
{
    if es.len() == 0 {
        seq![]
    } else {
        failure_lines(es.drop_last()) + if es.last().passed {
            Seq::<char>::empty()
        } else {
            failure_line(es.last())
        }
    }
}

/// The report: the run and eval logs it covers, the number of cases, passed
/// and failed, then a line for each failure when there is one.
pub open spec fn report_spec(run_path: Seq<char>, eval_path: Seq<char>, es: Seq<EvalEntry>) -> Seq<
    char,
> {
    "# Telescope Report\n\n"@ + "Run log: "@ + run_path + "\n"@ + "Eval log: "@ + eval_path
        + "\n\n"@ + "Total cases: "@ + decimal(es.len()) + "\n"@ + "Passed: "@ + decimal(
        passed_count(es),
    ) + "\n"@ + "Failed: "@ + decimal((es.len() - passed_count(es)) as nat) + "\n\n"@ + if passed_count(
        es,
    ) < es.len() {
        "## Failures\n"@ + failure_lines(es)
    } else {
        Seq::<char>::empty()
    }
}

/// The report line of an entry as a sequence: one line where it failed, none
/// where it passed.
pub open spec fn failure_line_of(e: EvalEntry) -> Seq<Seq<char>> {
    if e.passed {
        Seq::empty()
    } else {
        seq![failure_line(e)]
    }
}

/// The report lines of the failed entries, one for each, in order.
pub open spec fn failure_line_seq(es: Seq<EvalEntry>) -> Seq<Seq<char>>
    decreases es.len(),
{
    if es.len() == 0 {
        Seq::empty()
    } else {
        failure_line_seq(es.drop_last()) + failure_line_of(es.last())
    }
}

/// The failures section of the report is its failure lines written one after
/// another.
pub proof fn lemma_failure_lines_concatenate(es: Seq<EvalEntry>)
    ensures
        failure_lines(es) == failure_line_seq(es).flatten(),
    decreases es.len(),
{
    failure_line_seq(es).lemma_flatten_and_flatten_alt_are_equivalent();
    if es.len() > 0 {
        let init = failure_line_seq(es.drop_last());
        let last = failure_line_of(es.last());
        lemma_failure_lines_concatenate(es.drop_last());
        init.lemma_flatten_and_flatten_alt_are_equivalent();
        lemma_flatten_alt_concat(init, last);
        if es.last().passed {
            assert(last.flatten_alt() =~= Seq::<char>::empty());
        } else {
            assert(last.drop_last() =~= Seq::<Seq<char>>::empty());
            assert(last.drop_last().flatten_alt() =~= Seq::<char>::empty());
            assert(last.last() == failure_line(es.last()));
            assert(last.flatten_alt() =~= failure_line(es.last()));
        }
    }
}

/// Taking the entry at `j` out of an eval log takes its pass out of the count
/// and its failure line, if any, out of the failure lines.
proof fn lemma_without_entry(t: Seq<EvalEntry>, j: int)
    requires
        0 <= j < t.len(),
    ensures
        passed_count(t) == passed_count(t.remove(j)) + if t[j].passed {
            1nat
        } else {
            0nat
        },
        failure_line_seq(t).to_multiset() == failure_line_seq(t.remove(j)).to_multiset().add(
            failure_line_of(t[j]).to_multiset(),
        ),
    decreases t.len(),
{
    broadcast use vstd::multiset::group_multiset_axioms;

    if j == t.len() - 1 {
        assert(t.remove(j) =~= t.drop_last());
        lemma_multiset_commutative(failure_line_seq(t.drop_last()), failure_line_of(t.last()));
    } else {
        let u = t.drop_last();
        lemma_without_entry(u, j);
        assert(t.remove(j).drop_last() =~= u.remove(j));
        assert(t.remove(j).last() == t.last());
        assert(u[j] == t[j]);
        let a = failure_line_seq(u.remove(j)).to_multiset();
        let b = failure_line_of(t[j]).to_multiset();
        let c = failure_line_of(t.last()).to_multiset();
        lemma_multiset_commutative(failure_line_seq(u), failure_line_of(t.last()));
        lemma_multiset_commutative(failure_line_seq(u.remove(j)), failure_line_of(t.last()));
        assert(a.add(b).add(c) =~= a.add(c).add(b));
    }
}

/// The report counts each entry once: the passed count is the number of
/// entries that passed, and there is one failure line for each entry that
/// did not, in the order of the entries.
pub proof fn lemma_report_counts_entries(es: Seq<EvalEntry>)
    ensures
        passed_count(es) == es.filter(|e: EvalEntry| e.passed).len(),
        failure_line_seq(es) == es.filter(|e: EvalEntry| !e.passed).map_values(
            |e: EvalEntry| failure_line(e),
        ),
        passed_count(es) + failure_line_seq(es).len() == es.len(),
    decreases es.len(),
{
    reveal(Seq::filter);
    if es.len() > 0 {
        lemma_report_counts_entries(es.drop_last());
        let rest = es.drop_last().filter(|e: EvalEntry| !e.passed);
        if !es.last().passed {
            assert(rest.push(es.last()).map_values(|e: EvalEntry| failure_line(e)) =~= rest.map_values(
                |e: EvalEntry| failure_line(e),
            ) + seq![failure_line(es.last())]);
        } else {
            assert(failure_line_seq(es.drop_last()) + failure_line_of(es.last()) =~= failure_line_seq(
                es.drop_last(),
            ));
        }
    }
}

/// The report's counts and failure lines do not depend on the order of the
/// entries: two eval logs that hold the same entries, each as often, in any
/// order, have as many cases and as many passed, and the same failure lines,
/// each as often.
pub proof fn lemma_report_order_independent(es1: Seq<EvalEntry>, es2: Seq<EvalEntry>)
    requires
        es1.to_multiset() == es2.to_multiset(),
    ensures
        es1.len() == es2.len(),
        passed_count(es1) == passed_count(es2),
        failure_line_seq(es1).to_multiset() == failure_line_seq(es2).to_multiset(),
    decreases es1.len(),
{
    broadcast use vstd::seq_lib::group_to_multiset_ensures;
    broadcast use vstd::multiset::group_multiset_axioms;

    if es1.len() == 0 {
        assert(es2.to_multiset().len() == 0);
        assert(es2 =~= Seq::<EvalEntry>::empty());
    } else {
        let x = es1.last();
        let rest = es1.drop_last();
        assert(es1 =~= rest.push(x));
        assert(es1.to_multiset().count(x) > 0);
        assert(es2.contains(x));
        let j = es2.index_of(x);
        let rest2 = es2.remove(j);
        assert(rest.to_multiset() =~= rest2.to_multiset()) by {
            assert(es1.to_multiset() =~= rest.to_multiset().insert(x));
            assert(rest2.to_multiset() =~= es2.to_multiset().remove(x));
        }
        lemma_report_order_independent(rest, rest2);
        lemma_without_entry(es2, j);
        lemma_multiset_commutative(failure_line_seq(rest), failure_line_of(x));
    }
}

proof fn lemma_passed_le(es: Seq<EvalEntry>)
    ensures
        passed_count(es) <= es.len(),
    decreases es.len(),
{
    if es.len() > 0 {
        lemma_passed_le(es.drop_last());
    }
}

/// The report of the eval log at `eval_path`, of the run log at `run_path`,
/// whose entries are `eval_entries`.
pub fn generate_report(run_path: &str, eval_path: &str, eval_entries: &Vec<EvalEntry>) -> (r: String)
    ensures
        r@ == report_spec(run_path@, eval_path@, eval_entries@),
{
    let es = eval_entries;
    let total = es.len();
    let mut passed: usize = 0;
    let mut k: usize = 0;
    while k < total
        invariant
            k <= total == es@.len(),
            passed == passed_count(es@.take(k as int)),
            passed <= k,
        decreases total - k,
    {
        assert(es@.take(k + 1).drop_last() =~= es@.take(k as int));
        if es[k].passed {
            passed += 1;
        }
        k += 1;
    }
    assert(es@.take(total as int) =~= es@);
    let mut out: Vec<char> = Vec::new();
    push_str(&mut out, "# Telescope Report\n\n");
    push_str(&mut out, "Run log: ");
    push_str(&mut out, run_path);
    push_str(&mut out, "\n");
    push_str(&mut out, "Eval log: ");
    push_str(&mut out, eval_path);
    push_str(&mut out, "\n\n");
    push_str(&mut out, "Total cases: ");
    push_chars(&mut out, &decimal_chars(total));
    push_str(&mut out, "\n");
    push_str(&mut out, "Passed: ");
    push_chars(&mut out, &decimal_chars(passed));
    push_str(&mut out, "\n");
    push_str(&mut out, "Failed: ");
    push_chars(&mut out, &decimal_chars(total - passed));
    push_str(&mut out, "\n\n");
    let ghost head = out@;
    if passed < total {
        push_str(&mut out, "## Failures\n");
        let ghost start = out@;
        let mut k: usize = 0;
        assert(es@.take(0) =~= Seq::<EvalEntry>::empty());
        assert(start + failure_lines(es@.take(0)) =~= start);
        while k < total
            invariant
                k <= total == es@.len(),
                out@ == start + failure_lines(es@.take(k as int)),
            decreases total - k,
        {
            let e = &es[k];
            let ghost before = out@;
            if !e.passed {
                push_str(&mut out, "- ");
                push_str(&mut out, e.block_id.as_str());
                push_str(&mut out, " case ");
                push_chars(&mut out, &decimal_chars(e.case_index));
                push_str(&mut out, ": expected ");
                match &e.expected {
                    Some(x) => {
                        push_str(&mut out, "Some(");
                        push_str(&mut out, debug_quoted(x.as_str()).as_str());
                        push_str(&mut out, ")");
                    },
                    None => {
                        push_str(&mut out, "None");
                    },
                }
                push_str(&mut out, ", got ");
                push_str(&mut out, e.output.as_str());
                push_str(&mut out, "\n");
                assert(out@ =~= before + failure_line(*e));
            } else {
                assert(out@ =~= before + Seq::<char>::empty());
            }
            proof {
                let t = es@.take(k + 1);
                assert(t.drop_last() =~= es@.take(k as int));
                assert(t.last() == *e);
                assert(out@ =~= start + failure_lines(t));
            }
            k += 1;
        }
        assert(es@.take(total as int) =~= es@);
    }
    proof {
        lemma_passed_le(es@);
        assert(out@ =~= report_spec(run_path@, eval_path@, es@));
    }
    string_from_chars(out.as_slice())
}

} // verus!

//! The unified e-class analysis for all rules: column sets and aggregates.
use vstd::prelude::*;

use crate::agg::{AggSet, agg_set_views, analyze_aggs, expr_views, node_aggs};
use crate::column_set::ColumnSet;
use crate::language::Expr;
use crate::plan::{analyze_columns, node_columns, set_views};

verus! {

/// The unified analysis for all rules.
#[derive(Default)]
pub struct ExprAnalysis;

/// The analysis data associated with each e-class.
pub struct Data {
    /// The columns the e-class refers to.
    pub columns: ColumnSet,
    /// The aggregates within the e-class.
    pub aggs: AggSet,
}

/// The column sets of a list of analysis data.
pub open spec fn data_columns(v: Seq<&Data>) -> Seq<Set<Seq<char>>> {
    Seq::new(v.len(), |i: int| v[i].columns@)
}

/// The aggregate sets of a list of analysis data.
pub open spec fn data_aggs(v: Seq<&Data>) -> Seq<Seq<crate::language::ExprView>> {
    Seq::new(v.len(), |i: int| expr_views(v[i].aggs@))
}

impl ExprAnalysis {
    /// Analyzes a node, given the data of its children in order: its columns
    /// and its aggregates.
    pub fn make(enode: &Expr, children: &Vec<&Data>) -> (r: Data)
        requires
            children@.len() == enode@.children.len(),
        ensures
            r.columns@ == node_columns(enode@, data_columns(children@)),
            expr_views(r.aggs@) == node_aggs(enode@, data_aggs(children@)),
    {
        let mut cols: Vec<&ColumnSet> = Vec::new();
        let mut aggs: Vec<&AggSet> = Vec::new();
        for i in 0..children.len()
            invariant
                cols@.len() == i,
                aggs@.len() == i,
                forall|k: int| 0 <= k < i ==> (#[trigger] cols@[k])@ == children@[k].columns@,
                forall|k: int| 0 <= k < i ==> expr_views((#[trigger] aggs@[k])@) == expr_views(children@[k].aggs@),
        {
            cols.push(&children[i].columns);
            aggs.push(&children[i].aggs);
        }
        assert(set_views(cols@) =~= data_columns(children@));
        assert(agg_set_views(aggs@) =~= data_aggs(children@));
        Data { columns: analyze_columns(enode, &cols), aggs: analyze_aggs(enode, &aggs) }
    }
}

} // verus!

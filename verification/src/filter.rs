//! Record filters: the conditions a read or write operation selects rows by,
//! and the translation of selector rows into filters.
use vstd::prelude::*;

use crate::values::{pairs_view, pv_view, PrismaValue, PvView, SelectionResult};

verus! {

/// A dialect-independent condition over a model's rows.
#[derive(Debug)]
pub enum Filter {
    /// Every inner filter holds.
    And(Vec<Filter>),
    /// The field equals the value.
    Equals { field: usize, value: PrismaValue },
    /// The tuple of fields is one of the rows.
    In { fields: Vec<usize>, rows: Vec<SelectionResult> },
    /// No condition: selects everything.
    Empty,
}

/// The mathematical model of a `Filter`.
pub enum FilterView {
    And(Seq<FilterView>),
    Equals { field: usize, value: PvView },
    In { fields: Seq<usize>, rows: Seq<Seq<(usize, PvView)>> },
    Empty,
}

/// The model of a selector row list.
pub open spec fn rows_view(s: Seq<SelectionResult>) -> Seq<Seq<(usize, PvView)>> {
    Seq::new(s.len(), |i: int| pairs_view(s[i].pairs@))
}

/// The model of a filter.
pub open spec fn filter_view(f: Filter) -> FilterView
    decreases f,
{
    match f {
        Filter::And(inner) => FilterView::And(filters_view(inner@)),
        Filter::Equals { field, value } => FilterView::Equals { field, value: pv_view(value) },
        Filter::In { fields, rows } => FilterView::In { fields: fields@, rows: rows_view(rows@) },
        Filter::Empty => FilterView::Empty,
    }
}

/// The model of a filter list, element by element.
pub open spec fn filters_view(s: Seq<Filter>) -> Seq<FilterView>
    decreases s,
{
    if s.len() == 0 {
        Seq::empty()
    } else {
        seq![filter_view(s[0])] + filters_view(s.drop_first())
    }
}

/// `filters_view` maps the sequence element by element.
pub proof fn lemma_filters_view(s: Seq<Filter>)
    ensures
        filters_view(s).len() == s.len(),
        forall|i: int| 0 <= i < s.len() ==> #[trigger] filters_view(s)[i] == filter_view(s[i]),
    decreases s.len(),
{
    if s.len() > 0 {
        lemma_filters_view(s.drop_first());
        assert forall|i: int| 0 <= i < s.len() implies #[trigger] filters_view(s)[i]
            == filter_view(s[i]) by {
            if i > 0 {
                assert(filters_view(s)[i] == filters_view(s.drop_first())[i - 1]);
                assert(s.drop_first()[i - 1] == s[i]);
            }
        }
    }
}

impl View for Filter {
    type V = FilterView;

    open spec fn view(&self) -> FilterView {
        filter_view(*self)
    }
}

impl Clone for Filter {
    /// Deep copy; the copy has the same model as the original.
    fn clone(&self) -> (r: Self)
        ensures
            r@ == self@,
        decreases *self, 1int,
    {
        match self {
            Filter::And(inner) => Filter::And(Filter::clone_list(self, inner)),
            Filter::Equals { field, value } => Filter::Equals {
                field: *field,
                value: value.clone(),
            },
            Filter::In { fields, rows } => {
                let r = Filter::In { fields: fields.clone(), rows: clone_rows(rows) };
                proof {
                    assert(r@ matches FilterView::In { fields: f2, rows: r2 } && f2 == fields@
                        && r2 =~= rows_view(rows@));
                }
                r
            },
            Filter::Empty => Filter::Empty,
        }
    }
}

impl Filter {
    /// Deep copy of a filter list owned by `owner`.
    fn clone_list(owner: &Filter, x: &Vec<Filter>) -> (r: Vec<Filter>)
        requires
            owner matches Filter::And(v) && v == x,
        ensures
            filters_view(r@) == filters_view(x@),
        decreases *owner, 0int,
    {
        let mut out: Vec<Filter> = Vec::new();
        let mut i: usize = 0;
        while i < x.len()
            invariant
                i <= x@.len(),
                out@.len() == i,
                owner matches Filter::And(v) && v == x,
                forall|j: int| 0 <= j < i ==> #[trigger] filter_view(out@[j]) == filter_view(x@[j]),
            decreases x@.len() - i,
        {
            proof {
                assert(decreases_to!(*owner => x@[i as int]));
            }
            out.push(x[i].clone());
            i = i + 1;
        }
        proof {
            lemma_filters_view(out@);
            lemma_filters_view(x@);
            assert(filters_view(out@) =~= filters_view(x@));
        }
        out
    }
}

/// Deep copy of a selector row list; the copy has the same model.
pub fn clone_rows(rows: &Vec<SelectionResult>) -> (r: Vec<SelectionResult>)
    ensures
        rows_view(r@) == rows_view(rows@),
{
    let mut out: Vec<SelectionResult> = Vec::new();
    let mut i: usize = 0;
    while i < rows.len()
        invariant
            i <= rows@.len(),
            out@.len() == i,
            forall|j: int|
                0 <= j < i ==> #[trigger] pairs_view(out@[j].pairs@) == pairs_view(
                    rows@[j].pairs@,
                ),
        decreases rows@.len() - i,
    {
        out.push(rows[i].clone());
        i = i + 1;
    }
    proof {
        assert(rows_view(out@) =~= rows_view(rows@));
    }
    out
}

/// The model of the equality filter a single row converts to: one `Equals`
/// condition per `(field, value)` pair, conjoined.
pub open spec fn spec_row_filter(row: Seq<(usize, PvView)>) -> FilterView {
    FilterView::And(
        Seq::new(row.len(), |i: int| FilterView::Equals { field: row[i].0, value: row[i].1 }),
    )
}

impl SelectionResult {
    /// Converts the row into the conjunction of per-field equality conditions.
    pub fn to_filter(&self) -> (r: Filter)
        ensures
            r@ == spec_row_filter(self@),
    {
        let mut conds: Vec<Filter> = Vec::new();
        let mut i: usize = 0;
        while i < self.pairs.len()
            invariant
                i <= self.pairs@.len(),
                conds@.len() == i,
                forall|j: int|
                    0 <= j < i ==> #[trigger] filter_view(conds@[j]) == (FilterView::Equals {
                        field: self.pairs@[j].0,
                        value: pv_view(self.pairs@[j].1),
                    }),
            decreases self.pairs@.len() - i,
        {
            let f = self.pairs[i].0;
            let v = self.pairs[i].1.clone();
            conds.push(Filter::Equals { field: f, value: v });
            i = i + 1;
        }
        let r = Filter::And(conds);
        proof {
            lemma_filters_view(conds@);
            assert(filters_view(conds@) =~= Seq::new(
                self@.len(),
                |i: int| FilterView::Equals { field: self@[i].0, value: self@[i].1 },
            ));
        }
        r
    }
}

/// The model of the membership filter a selector list converts to: the first
/// row's fields tested against all rows.
pub open spec fn spec_selectors_filter(rows: Seq<Seq<(usize, PvView)>>) -> FilterView {
    FilterView::In {
        fields: if rows.len() == 0 {
            Seq::empty()
        } else {
            Seq::new(rows[0].len(), |i: int| rows[0][i].0)
        },
        rows,
    }
}

/// Converts selector rows into one membership filter over the first row's
/// fields.
pub fn selectors_to_filter(selectors: &Vec<SelectionResult>) -> (r: Filter)
    ensures
        r@ == spec_selectors_filter(rows_view(selectors@)),
{
    let mut fields: Vec<usize> = Vec::new();
    if selectors.len() > 0 {
        let first = &selectors[0];
        let mut i: usize = 0;
        while i < first.pairs.len()
            invariant
                i <= first.pairs@.len(),
                fields@.len() == i,
                forall|j: int| 0 <= j < i ==> #[trigger] fields@[j] == first.pairs@[j].0,
            decreases first.pairs@.len() - i,
        {
            fields.push(first.pairs[i].0);
            i = i + 1;
        }
    }
    let rows = clone_rows(selectors);
    let r = Filter::In { fields, rows };
    proof {
        if selectors@.len() == 0 {
            assert(fields@ =~= Seq::<usize>::empty());
        } else {
            assert(fields@ =~= Seq::new(
                rows_view(selectors@)[0].len(),
                |i: int| rows_view(selectors@)[0][i].0,
            ));
        }
    }
    r
}

/// A filter paired with the concrete selector rows a preceding read resolved,
/// if any.
#[derive(Debug)]
pub struct RecordFilter {
    pub filter: Filter,
    pub selectors: Option<Vec<SelectionResult>>,
}

/// The model of the combined filter for a single-record update: when selector
/// rows are present, their membership filter conjoined with the record
/// filter; otherwise the record filter alone.
pub open spec fn spec_update_one_filter(
    filter: FilterView,
    selectors: Option<Seq<Seq<(usize, PvView)>>>,
) -> FilterView {
    match selectors {
        Some(rows) => FilterView::And(seq![spec_selectors_filter(rows), filter]),
        None => filter,
    }
}

/// Builds the filter for a single-record update: the selectors, if any,
/// become a membership condition conjoined with the record filter.
///
/// This combined filter is not chunked, so it is only suitable where the
/// selector list is known to be small.
pub fn build_update_one_filter(record_filter: RecordFilter) -> (r: Filter)
    ensures
        r@ == spec_update_one_filter(
            record_filter.filter@,
            match record_filter.selectors {
                Some(s) => Some(rows_view(s@)),
                None => None,
            },
        ),
{
    match record_filter.selectors {
        Some(selectors) => {
            let in_filter = selectors_to_filter(&selectors);
            let mut conds: Vec<Filter> = Vec::new();
            conds.push(in_filter);
            conds.push(record_filter.filter);
            let r = Filter::And(conds);
            proof {
                lemma_filters_view(conds@);
                assert(filters_view(conds@) =~= seq![
                    spec_selectors_filter(rows_view(selectors@)),
                    filter_view(record_filter.filter),
                ]);
            }
            r
        },
        None => record_filter.filter,
    }
}

} // verus!

//! Report assembly: data-quality counting over the model, percentage
//! arithmetic, and the pure functions composing the error, warnings,
//! and success reports as documents. Every formatter's plain text is
//! pinned down exactly by a spec-level text of the report.

use vstd::prelude::*;

use crate::colored_doc::Color;
use crate::colored_doc::ColoredDoc;
use crate::colored_doc::color_spec;
use crate::colored_doc::dimmed_spec;
use crate::colored_doc::heading;
use crate::colored_doc::heading_leaves;
use crate::colored_doc::heading_text;
use crate::colored_doc::leaves_of;
use crate::colored_doc::lemma_concat_contains_left;
use crate::colored_doc::lemma_concat_contains_right;
use crate::colored_doc::bold_in;
use crate::colored_doc::dimmed_style;
use crate::colored_doc::nl_leaf;
use crate::colored_doc::plain_in;
use crate::colored_doc::Leaf;
use crate::colored_doc::Style;
use crate::colored_doc::separator_leaves;
use crate::colored_doc::subheading_leaves;
use crate::colored_doc::separator;
use crate::colored_doc::separator_text;
use crate::colored_doc::plain_of;
use crate::colored_doc::subheading;
use crate::colored_doc::subheading_text;
use crate::colored_doc::table_text;
use crate::colored_doc::table_view;
use crate::colored_doc::col_view;
use crate::colored_doc::Alignment;
use crate::colored_doc::Cell;
use crate::colored_doc::ColView;
use crate::colored_doc::Column;
use crate::colored_doc::Table as TableRenderer;
use crate::model::BaseTable;
use crate::model::ModuleCustomInstructions;
use crate::model::Relationship;
use crate::model::RelationshipColumn;
use crate::model::VerifiedQuery;
use crate::text::usize_to_string;
use crate::model::Dimension;
use crate::model::Fact;
use crate::model::Filter;
use crate::model::Metric;
use crate::model::SemanticModel;
use crate::model::Table;
use crate::model::TimeDimension;
use crate::model::ValidationError;
use crate::model::ValidationWarning;
use crate::text::dec_str;
use crate::text::join_seqs;
use crate::text::join_with;
use crate::text::split_lines;
use crate::text::split_lines_vec;
use vstd::arithmetic::div_mod::lemma_div_is_ordered;
use vstd::arithmetic::div_mod::lemma_fundamental_div_mod_converse_div;

verus! {

/// True when an optional synonyms list is present and non-empty.
pub open spec fn syn_nonempty(s: Option<Vec<String>>) -> bool {
    s matches Some(v) && v@.len() > 0
}

/// True when an optional description is present and non-empty: an
/// empty string does not count as a description.
pub open spec fn desc_nonempty(d: Option<String>) -> bool {
    d matches Some(s) && s@.len() > 0
}

/// The number of true entries.
pub open spec fn count_true(s: Seq<bool>) -> nat
    decreases s,
{
    if s.len() == 0 {
        0
    } else {
        count_true(s.drop_last()) + (if s.last() {
            1nat
        } else {
            0nat
        })
    }
}

pub proof fn lemma_count_true_le(s: Seq<bool>)
    ensures
        count_true(s) <= s.len(),
    decreases s,
{
    if s.len() > 0 {
        lemma_count_true_le(s.drop_last());
    }
}

/// The number of countable entities of a table: its dimensions, time
/// dimensions, facts, metrics, and filters.
pub open spec fn table_total(t: Table) -> nat {
    t.dimensions@.len() + t.time_dimensions@.len() + t.facts@.len() + t.metrics@.len()
        + t.filters@.len()
}

/// The number of a table's entities that carry a non-empty
/// description.
pub open spec fn table_described(t: Table) -> nat {
    count_true(t.dimensions@.map_values(|d: Dimension| desc_nonempty(d.description))) + count_true(
        t.time_dimensions@.map_values(|d: TimeDimension| desc_nonempty(d.description)),
    ) + count_true(t.facts@.map_values(|d: Fact| desc_nonempty(d.description))) + count_true(
        t.metrics@.map_values(|d: Metric| desc_nonempty(d.description)),
    ) + count_true(t.filters@.map_values(|d: Filter| desc_nonempty(d.description)))
}

/// The number of a table's entities that carry at least one synonym.
pub open spec fn table_aliased(t: Table) -> nat {
    count_true(t.dimensions@.map_values(|d: Dimension| syn_nonempty(d.synonyms))) + count_true(
        t.time_dimensions@.map_values(|d: TimeDimension| syn_nonempty(d.synonyms)),
    ) + count_true(t.facts@.map_values(|d: Fact| syn_nonempty(d.synonyms))) + count_true(
        t.metrics@.map_values(|d: Metric| syn_nonempty(d.synonyms)),
    ) + count_true(t.filters@.map_values(|d: Filter| syn_nonempty(d.synonyms)))
}

pub proof fn lemma_table_described_le(t: Table)
    ensures
        table_described(t) <= table_total(t),
        table_aliased(t) <= table_total(t),
{
    lemma_count_true_le(t.dimensions@.map_values(|d: Dimension| desc_nonempty(d.description)));
    lemma_count_true_le(t.time_dimensions@.map_values(|d: TimeDimension| desc_nonempty(d.description)));
    lemma_count_true_le(t.facts@.map_values(|d: Fact| desc_nonempty(d.description)));
    lemma_count_true_le(t.metrics@.map_values(|d: Metric| desc_nonempty(d.description)));
    lemma_count_true_le(t.filters@.map_values(|d: Filter| desc_nonempty(d.description)));
    lemma_count_true_le(t.dimensions@.map_values(|d: Dimension| syn_nonempty(d.synonyms)));
    lemma_count_true_le(
        t.time_dimensions@.map_values(|d: TimeDimension| syn_nonempty(d.synonyms)),
    );
    lemma_count_true_le(t.facts@.map_values(|d: Fact| syn_nonempty(d.synonyms)));
    lemma_count_true_le(t.metrics@.map_values(|d: Metric| syn_nonempty(d.synonyms)));
    lemma_count_true_le(t.filters@.map_values(|d: Filter| syn_nonempty(d.synonyms)));
}

/// The countable entities across a list of tables.
pub open spec fn tables_total(ts: Seq<Table>) -> nat
    decreases ts,
{
    if ts.len() == 0 {
        0
    } else {
        tables_total(ts.drop_last()) + table_total(ts.last())
    }
}

/// The entities with a non-empty description across a list of tables.
pub open spec fn tables_described(ts: Seq<Table>) -> nat
    decreases ts,
{
    if ts.len() == 0 {
        0
    } else {
        tables_described(ts.drop_last()) + table_described(ts.last())
    }
}

/// The aliased entities across a list of tables.
pub open spec fn tables_aliased(ts: Seq<Table>) -> nat
    decreases ts,
{
    if ts.len() == 0 {
        0
    } else {
        tables_aliased(ts.drop_last()) + table_aliased(ts.last())
    }
}

/// The countable entities of the whole model, model-level metrics
/// included.
pub open spec fn model_total(m: SemanticModel) -> nat {
    tables_total(m.tables@) + m.metrics@.len()
}

/// The entities with a non-empty description of the whole model.
pub open spec fn model_described(m: SemanticModel) -> nat {
    tables_described(m.tables@) + count_true(
        m.metrics@.map_values(|d: Metric| desc_nonempty(d.description)),
    )
}

/// The aliased entities of the whole model.
pub open spec fn model_aliased(m: SemanticModel) -> nat {
    tables_aliased(m.tables@) + count_true(
        m.metrics@.map_values(|d: Metric| syn_nonempty(d.synonyms)),
    )
}

proof fn lemma_tables_counts_push(ts: Seq<Table>, i: int)
    requires
        0 <= i < ts.len(),
    ensures
        tables_total(ts.take(i + 1)) == tables_total(ts.take(i)) + table_total(ts[i]),
        tables_described(ts.take(i + 1)) == tables_described(ts.take(i)) + table_described(
            ts[i],
        ),
        tables_aliased(ts.take(i + 1)) == tables_aliased(ts.take(i)) + table_aliased(ts[i]),
{
    assert(ts.take(i + 1).drop_last() =~= ts.take(i));
    assert(ts.take(i + 1).last() == ts[i]);
}

proof fn lemma_tables_total_prefix_le(ts: Seq<Table>, i: int)
    requires
        0 <= i <= ts.len(),
    ensures
        tables_total(ts.take(i)) <= tables_total(ts),
    decreases ts.len(),
{
    if i == ts.len() {
        assert(ts.take(i) =~= ts);
    } else {
        assert(ts.take(i) =~= ts.drop_last().take(i));
        lemma_tables_total_prefix_le(ts.drop_last(), i);
    }
}

#[verifier::loop_isolation(false)]
fn count_dimensions(ds: &Vec<Dimension>) -> (r: (usize, usize))
    ensures
        r.0 as nat == count_true(ds@.map_values(|d: Dimension| desc_nonempty(d.description))),
        r.1 as nat == count_true(ds@.map_values(|d: Dimension| syn_nonempty(d.synonyms))),
{
    let ghost dm = ds@.map_values(|d: Dimension| desc_nonempty(d.description));
    let ghost am = ds@.map_values(|d: Dimension| syn_nonempty(d.synonyms));
    let mut described: usize = 0;
    let mut aliased: usize = 0;
    let mut i: usize = 0;
    proof {
        assert(dm.take(0) =~= Seq::<bool>::empty());
        assert(am.take(0) =~= Seq::<bool>::empty());
    }
    while i < ds.len()
        invariant
            i <= ds@.len(),
            described <= i,
            aliased <= i,
            described as nat == count_true(dm.take(i as int)),
            aliased as nat == count_true(am.take(i as int)),
        decreases ds@.len() - i,
    {
        proof {
            assert(dm.take(i as int + 1).drop_last() =~= dm.take(i as int));
            assert(dm.take(i as int + 1).last() == dm[i as int]);
            assert(am.take(i as int + 1).drop_last() =~= am.take(i as int));
            assert(am.take(i as int + 1).last() == am[i as int]);
        }
        match &ds[i].description {
            Some(text) => if !text.as_str().is_empty() {
                described = described + 1;
            },
            None => {}
        }
        match &ds[i].synonyms {
            Some(v) => if v.len() > 0 {
                aliased = aliased + 1;
            },
            None => {}
        }
        i = i + 1;
    }
    proof {
        assert(dm.take(ds@.len() as int) =~= dm);
        assert(am.take(ds@.len() as int) =~= am);
    }
    (described, aliased)
}

#[verifier::loop_isolation(false)]
fn count_time_dimensions(ds: &Vec<TimeDimension>) -> (r: (usize, usize))
    ensures
        r.0 as nat == count_true(ds@.map_values(|d: TimeDimension| desc_nonempty(d.description))),
        r.1 as nat == count_true(ds@.map_values(|d: TimeDimension| syn_nonempty(d.synonyms))),
{
    let ghost dm = ds@.map_values(|d: TimeDimension| desc_nonempty(d.description));
    let ghost am = ds@.map_values(|d: TimeDimension| syn_nonempty(d.synonyms));
    let mut described: usize = 0;
    let mut aliased: usize = 0;
    let mut i: usize = 0;
    proof {
        assert(dm.take(0) =~= Seq::<bool>::empty());
        assert(am.take(0) =~= Seq::<bool>::empty());
    }
    while i < ds.len()
        invariant
            i <= ds@.len(),
            described <= i,
            aliased <= i,
            described as nat == count_true(dm.take(i as int)),
            aliased as nat == count_true(am.take(i as int)),
        decreases ds@.len() - i,
    {
        proof {
            assert(dm.take(i as int + 1).drop_last() =~= dm.take(i as int));
            assert(dm.take(i as int + 1).last() == dm[i as int]);
            assert(am.take(i as int + 1).drop_last() =~= am.take(i as int));
            assert(am.take(i as int + 1).last() == am[i as int]);
        }
        match &ds[i].description {
            Some(text) => if !text.as_str().is_empty() {
                described = described + 1;
            },
            None => {}
        }
        match &ds[i].synonyms {
            Some(v) => if v.len() > 0 {
                aliased = aliased + 1;
            },
            None => {}
        }
        i = i + 1;
    }
    proof {
        assert(dm.take(ds@.len() as int) =~= dm);
        assert(am.take(ds@.len() as int) =~= am);
    }
    (described, aliased)
}

#[verifier::loop_isolation(false)]
fn count_facts(ds: &Vec<Fact>) -> (r: (usize, usize))
    ensures
        r.0 as nat == count_true(ds@.map_values(|d: Fact| desc_nonempty(d.description))),
        r.1 as nat == count_true(ds@.map_values(|d: Fact| syn_nonempty(d.synonyms))),
{
    let ghost dm = ds@.map_values(|d: Fact| desc_nonempty(d.description));
    let ghost am = ds@.map_values(|d: Fact| syn_nonempty(d.synonyms));
    let mut described: usize = 0;
    let mut aliased: usize = 0;
    let mut i: usize = 0;
    proof {
        assert(dm.take(0) =~= Seq::<bool>::empty());
        assert(am.take(0) =~= Seq::<bool>::empty());
    }
    while i < ds.len()
        invariant
            i <= ds@.len(),
            described <= i,
            aliased <= i,
            described as nat == count_true(dm.take(i as int)),
            aliased as nat == count_true(am.take(i as int)),
        decreases ds@.len() - i,
    {
        proof {
            assert(dm.take(i as int + 1).drop_last() =~= dm.take(i as int));
            assert(dm.take(i as int + 1).last() == dm[i as int]);
            assert(am.take(i as int + 1).drop_last() =~= am.take(i as int));
            assert(am.take(i as int + 1).last() == am[i as int]);
        }
        match &ds[i].description {
            Some(text) => if !text.as_str().is_empty() {
                described = described + 1;
            },
            None => {}
        }
        match &ds[i].synonyms {
            Some(v) => if v.len() > 0 {
                aliased = aliased + 1;
            },
            None => {}
        }
        i = i + 1;
    }
    proof {
        assert(dm.take(ds@.len() as int) =~= dm);
        assert(am.take(ds@.len() as int) =~= am);
    }
    (described, aliased)
}

#[verifier::loop_isolation(false)]
fn count_metrics(ds: &Vec<Metric>) -> (r: (usize, usize))
    ensures
        r.0 as nat == count_true(ds@.map_values(|d: Metric| desc_nonempty(d.description))),
        r.1 as nat == count_true(ds@.map_values(|d: Metric| syn_nonempty(d.synonyms))),
{
    let ghost dm = ds@.map_values(|d: Metric| desc_nonempty(d.description));
    let ghost am = ds@.map_values(|d: Metric| syn_nonempty(d.synonyms));
    let mut described: usize = 0;
    let mut aliased: usize = 0;
    let mut i: usize = 0;
    proof {
        assert(dm.take(0) =~= Seq::<bool>::empty());
        assert(am.take(0) =~= Seq::<bool>::empty());
    }
    while i < ds.len()
        invariant
            i <= ds@.len(),
            described <= i,
            aliased <= i,
            described as nat == count_true(dm.take(i as int)),
            aliased as nat == count_true(am.take(i as int)),
        decreases ds@.len() - i,
    {
        proof {
            assert(dm.take(i as int + 1).drop_last() =~= dm.take(i as int));
            assert(dm.take(i as int + 1).last() == dm[i as int]);
            assert(am.take(i as int + 1).drop_last() =~= am.take(i as int));
            assert(am.take(i as int + 1).last() == am[i as int]);
        }
        match &ds[i].description {
            Some(text) => if !text.as_str().is_empty() {
                described = described + 1;
            },
            None => {}
        }
        match &ds[i].synonyms {
            Some(v) => if v.len() > 0 {
                aliased = aliased + 1;
            },
            None => {}
        }
        i = i + 1;
    }
    proof {
        assert(dm.take(ds@.len() as int) =~= dm);
        assert(am.take(ds@.len() as int) =~= am);
    }
    (described, aliased)
}

#[verifier::loop_isolation(false)]
fn count_filters(ds: &Vec<Filter>) -> (r: (usize, usize))
    ensures
        r.0 as nat == count_true(ds@.map_values(|d: Filter| desc_nonempty(d.description))),
        r.1 as nat == count_true(ds@.map_values(|d: Filter| syn_nonempty(d.synonyms))),
{
    let ghost dm = ds@.map_values(|d: Filter| desc_nonempty(d.description));
    let ghost am = ds@.map_values(|d: Filter| syn_nonempty(d.synonyms));
    let mut described: usize = 0;
    let mut aliased: usize = 0;
    let mut i: usize = 0;
    proof {
        assert(dm.take(0) =~= Seq::<bool>::empty());
        assert(am.take(0) =~= Seq::<bool>::empty());
    }
    while i < ds.len()
        invariant
            i <= ds@.len(),
            described <= i,
            aliased <= i,
            described as nat == count_true(dm.take(i as int)),
            aliased as nat == count_true(am.take(i as int)),
        decreases ds@.len() - i,
    {
        proof {
            assert(dm.take(i as int + 1).drop_last() =~= dm.take(i as int));
            assert(dm.take(i as int + 1).last() == dm[i as int]);
            assert(am.take(i as int + 1).drop_last() =~= am.take(i as int));
            assert(am.take(i as int + 1).last() == am[i as int]);
        }
        match &ds[i].description {
            Some(text) => if !text.as_str().is_empty() {
                described = described + 1;
            },
            None => {}
        }
        match &ds[i].synonyms {
            Some(v) => if v.len() > 0 {
                aliased = aliased + 1;
            },
            None => {}
        }
        i = i + 1;
    }
    proof {
        assert(dm.take(ds@.len() as int) =~= dm);
        assert(am.take(ds@.len() as int) =~= am);
    }
    (described, aliased)
}

/// Count a single table's entities with a non-empty description:
/// returns the described count and the total entity count.
pub fn count_table_described_columns(table: &Table) -> (r: (usize, usize))
    requires
        table_total(*table) <= usize::MAX,
    ensures
        r.0 as nat == table_described(*table),
        r.1 as nat == table_total(*table),
        r.0 <= r.1,
{
    proof {
        lemma_table_described_le(*table);
    }
    let (d1, _) = count_dimensions(&table.dimensions);
    let (d2, _) = count_time_dimensions(&table.time_dimensions);
    let (d3, _) = count_facts(&table.facts);
    let (d4, _) = count_metrics(&table.metrics);
    let (d5, _) = count_filters(&table.filters);
    let total = table.dimensions.len() + table.time_dimensions.len() + table.facts.len()
        + table.metrics.len() + table.filters.len();
    proof {
        lemma_count_true_le(table.dimensions@.map_values(|d: Dimension| desc_nonempty(d.description)));
        lemma_count_true_le(
            table.time_dimensions@.map_values(|d: TimeDimension| desc_nonempty(d.description)),
        );
        lemma_count_true_le(table.facts@.map_values(|d: Fact| desc_nonempty(d.description)));
        lemma_count_true_le(table.metrics@.map_values(|d: Metric| desc_nonempty(d.description)));
        lemma_count_true_le(table.filters@.map_values(|d: Filter| desc_nonempty(d.description)));
    }
    (d1 + d2 + d3 + d4 + d5, total)
}

/// Count a single table's entities with at least one synonym: returns
/// the aliased count and the total entity count.
pub fn count_table_aliased_columns(table: &Table) -> (r: (usize, usize))
    requires
        table_total(*table) <= usize::MAX,
    ensures
        r.0 as nat == table_aliased(*table),
        r.1 as nat == table_total(*table),
        r.0 <= r.1,
{
    proof {
        lemma_table_described_le(*table);
    }
    let (_, a1) = count_dimensions(&table.dimensions);
    let (_, a2) = count_time_dimensions(&table.time_dimensions);
    let (_, a3) = count_facts(&table.facts);
    let (_, a4) = count_metrics(&table.metrics);
    let (_, a5) = count_filters(&table.filters);
    let total = table.dimensions.len() + table.time_dimensions.len() + table.facts.len()
        + table.metrics.len() + table.filters.len();
    proof {
        lemma_count_true_le(
            table.dimensions@.map_values(|d: Dimension| syn_nonempty(d.synonyms)),
        );
        lemma_count_true_le(
            table.time_dimensions@.map_values(|d: TimeDimension| syn_nonempty(d.synonyms)),
        );
        lemma_count_true_le(table.facts@.map_values(|d: Fact| syn_nonempty(d.synonyms)));
        lemma_count_true_le(table.metrics@.map_values(|d: Metric| syn_nonempty(d.synonyms)));
        lemma_count_true_le(table.filters@.map_values(|d: Filter| syn_nonempty(d.synonyms)));
    }
    (a1 + a2 + a3 + a4 + a5, total)
}

/// Count the entities with a non-empty description across the whole
/// model, model-level metrics included: returns the described count
/// and the total.
#[verifier::loop_isolation(false)]
pub fn count_described_columns(model: &SemanticModel) -> (r: (usize, usize))
    requires
        model_total(*model) <= usize::MAX,
    ensures
        r.0 as nat == model_described(*model),
        r.1 as nat == model_total(*model),
        r.0 <= r.1,
{
    let ghost ts = model.tables@;
    let mut described: usize = 0;
    let mut total: usize = 0;
    let mut i: usize = 0;
    proof {
        assert(ts.take(0) =~= Seq::<Table>::empty());
    }
    while i < model.tables.len()
        invariant
            i <= ts.len(),
            described as nat == tables_described(ts.take(i as int)),
            total as nat == tables_total(ts.take(i as int)),
            described <= total,
        decreases ts.len() - i,
    {
        proof {
            lemma_tables_counts_push(ts, i as int);
            lemma_tables_total_prefix_le(ts, i as int + 1);
            lemma_table_described_le(ts[i as int]);
        }
        let (d, t) = count_table_described_columns(&model.tables[i]);
        described = described + d;
        total = total + t;
        i = i + 1;
    }
    proof {
        assert(ts.take(ts.len() as int) =~= ts);
        lemma_count_true_le(model.metrics@.map_values(|d: Metric| desc_nonempty(d.description)));
    }
    let (md, _) = count_metrics(&model.metrics);
    described = described + md;
    total = total + model.metrics.len();
    (described, total)
}

/// Count the aliased entities across the whole model, model-level
/// metrics included: returns the aliased count and the total.
#[verifier::loop_isolation(false)]
pub fn count_aliased_columns(model: &SemanticModel) -> (r: (usize, usize))
    requires
        model_total(*model) <= usize::MAX,
    ensures
        r.0 as nat == model_aliased(*model),
        r.1 as nat == model_total(*model),
        r.0 <= r.1,
{
    let ghost ts = model.tables@;
    let mut aliased: usize = 0;
    let mut total: usize = 0;
    let mut i: usize = 0;
    proof {
        assert(ts.take(0) =~= Seq::<Table>::empty());
    }
    while i < model.tables.len()
        invariant
            i <= ts.len(),
            aliased as nat == tables_aliased(ts.take(i as int)),
            total as nat == tables_total(ts.take(i as int)),
            aliased <= total,
        decreases ts.len() - i,
    {
        proof {
            lemma_tables_counts_push(ts, i as int);
            lemma_tables_total_prefix_le(ts, i as int + 1);
            lemma_table_described_le(ts[i as int]);
        }
        let (a, t) = count_table_aliased_columns(&model.tables[i]);
        aliased = aliased + a;
        total = total + t;
        i = i + 1;
    }
    proof {
        assert(ts.take(ts.len() as int) =~= ts);
        lemma_count_true_le(model.metrics@.map_values(|d: Metric| syn_nonempty(d.synonyms)));
    }
    let (_, ma) = count_metrics(&model.metrics);
    aliased = aliased + ma;
    total = total + model.metrics.len();
    (aliased, total)
}

/// The share `num` of `den` as a whole percentage, rounded to the
/// nearest with halves up; a zero denominator yields 0, never a fault.
pub open spec fn pct_whole(num: nat, den: nat) -> nat {
    if den == 0 {
        0
    } else {
        (num * 200 + den) / (den * 2)
    }
}

/// The share `num` of `den` in tenths of a percent, rounded to the
/// nearest with halves up; a zero denominator yields 0, never a fault.
pub open spec fn pct_tenths(num: nat, den: nat) -> nat {
    if den == 0 {
        0
    } else {
        (num * 2000 + den) / (den * 2)
    }
}

/// Compute the whole percentage of `num` out of `den`.
pub fn percent_whole(num: usize, den: usize) -> (p: usize)
    requires
        num <= den,
    ensures
        p as nat == pct_whole(num as nat, den as nat),
        p <= 100,
{
    if den == 0 {
        0
    } else {
        let n = num as u128;
        let d = den as u128;
        let q = (n * 200 + d) / (d * 2);
        proof {
            let ni = n as int;
            let di = d as int;
            let x: int = ni * 200 + di;
            let d2: int = di * 2;
            assert(x <= 101 * d2 - 1) by (nonlinear_arith)
                requires
                    ni <= di,
                    di >= 1,
                    x == ni * 200 + di,
                    d2 == di * 2,
            ;
            lemma_fundamental_div_mod_converse_div(101 * d2 - 1, d2, 100, d2 - 1);
            lemma_div_is_ordered(x, 101 * d2 - 1, d2);
            assert(q == x / d2);
        }
        q as usize
    }
}

/// Compute tenths of a percent of `num` out of `den`.
pub fn percent_tenths(num: usize, den: usize) -> (p: usize)
    requires
        num <= den,
    ensures
        p as nat == pct_tenths(num as nat, den as nat),
        p <= 1000,
{
    if den == 0 {
        0
    } else {
        let n = num as u128;
        let d = den as u128;
        let q = (n * 2000 + d) / (d * 2);
        proof {
            let ni = n as int;
            let di = d as int;
            let x: int = ni * 2000 + di;
            let d2: int = di * 2;
            assert(x <= 1001 * d2 - 1) by (nonlinear_arith)
                requires
                    ni <= di,
                    di >= 1,
                    x == ni * 2000 + di,
                    d2 == di * 2,
            ;
            lemma_fundamental_div_mod_converse_div(1001 * d2 - 1, d2, 1000, d2 - 1);
            lemma_div_is_ordered(x, 1001 * d2 - 1, d2);
            assert(q == x / d2);
        }
        q as usize
    }
}

/// The plain text of the fixed tip block shown for parse failures.
pub open spec fn yaml_tips_text() -> Seq<char> {
    "TIP:"@ + seq!['\n'] + "  Check the YAML syntax at the indicated line and column."@
        + seq!['\n'] + "  Common issues include:"@ + seq!['\n']
        + "    * Incorrect indentation (use spaces, not tabs)"@ + seq!['\n']
        + "    * Missing colons after keys"@ + seq!['\n']
        + "    * Unquoted strings containing special characters"@ + seq!['\n']
        + "    * Missing required fields"@ + seq!['\n'] + seq!['\n']
}

/// The leaves of the fixed tip block: the word TIP in bold yellow, the
/// advice lines unstyled.
pub open spec fn yaml_tips_leaves() -> Seq<Leaf> {
    seq![
        (Leaf { text: "TIP:"@, style: Some(bold_in(Color::Yellow)) }),
        nl_leaf(),
        (Leaf {
            text: "  Check the YAML syntax at the indicated line and column."@,
            style: None::<Style>,
        }),
        nl_leaf(),
        (Leaf { text: "  Common issues include:"@, style: None::<Style> }),
        nl_leaf(),
        (Leaf {
            text: "    * Incorrect indentation (use spaces, not tabs)"@,
            style: None::<Style>,
        }),
        nl_leaf(),
        (Leaf { text: "    * Missing colons after keys"@, style: None::<Style> }),
        nl_leaf(),
        (Leaf {
            text: "    * Unquoted strings containing special characters"@,
            style: None::<Style>,
        }),
        nl_leaf(),
        (Leaf { text: "    * Missing required fields"@, style: None::<Style> }),
        nl_leaf(),
        nl_leaf(),
    ]
}

/// The leaves of the error report: the heading and the closing rule in
/// the alert color, the message as a bullet in the alert color, bold.
pub open spec fn error_report_leaves(e: ValidationError) -> Seq<Leaf> {
    heading_leaves("VALIDATION ERROR"@, Color::Red) + seq![nl_leaf()] + seq![
        (Leaf { text: "* "@ + e.message@, style: Some(bold_in(Color::Red)) }),
        nl_leaf(),
        nl_leaf(),
    ] + (if e.is_yaml_error {
        yaml_tips_leaves()
    } else {
        Seq::<Leaf>::empty()
    }) + separator_leaves("="@, Color::Red)
}

/// The plain text of the error report: the heading, the message as a
/// bullet, the tip block only for parse failures, and the closing rule.
pub open spec fn error_report_text(e: ValidationError) -> Seq<char> {
    heading_text("VALIDATION ERROR"@) + seq!['\n'] + "* "@ + e.message@ + seq!['\n']
        + seq!['\n'] + (if e.is_yaml_error {
        yaml_tips_text()
    } else {
        Seq::<char>::empty()
    }) + separator_text("="@)
}

/// Format a validation error as a document.
#[verifier::rlimit(100)]
pub fn format_error(error: &ValidationError) -> (r: ColoredDoc)
    ensures
        plain_of(r) == error_report_text(*error),
        leaves_of(r) == error_report_leaves(*error),
{
    let mut bullet = "* ".to_owned();
    bullet.append(error.message.as_str());
    let mut doc = heading("VALIDATION ERROR", Color::Red).append(ColoredDoc::line()).append(
        ColoredDoc::colored_text(bullet.as_str(), color_spec(Color::Red, true)),
    ).append(ColoredDoc::line()).append(ColoredDoc::line());
    if error.is_yaml_error {
        doc = doc.append(
            ColoredDoc::colored_text("TIP:", color_spec(Color::Yellow, true)),
        ).append(ColoredDoc::line()).append(
            ColoredDoc::text("  Check the YAML syntax at the indicated line and column."),
        ).append(ColoredDoc::line()).append(ColoredDoc::text("  Common issues include:")).append(
            ColoredDoc::line(),
        ).append(ColoredDoc::text("    * Incorrect indentation (use spaces, not tabs)")).append(
            ColoredDoc::line(),
        ).append(ColoredDoc::text("    * Missing colons after keys")).append(
            ColoredDoc::line(),
        ).append(
            ColoredDoc::text("    * Unquoted strings containing special characters"),
        ).append(ColoredDoc::line()).append(ColoredDoc::text("    * Missing required fields")).append(
            ColoredDoc::line(),
        ).append(ColoredDoc::line());
    }
    let r = doc.append(separator("=", Color::Red));
    proof {
        assert(plain_of(r) =~= error_report_text(*error));
        assert(leaves_of(r) =~= error_report_leaves(*error));
    }
    r
}

/// The plain text of one warning entry: the bullet, the message, and
/// the indented suggestion block when one is present.
pub open spec fn warning_text(w: ValidationWarning) -> Seq<char> {
    "* "@ + w.message@ + seq!['\n'] + (match w.suggestion {
        Some(s) => seq!['\n'] + "  Suggestion:"@ + seq!['\n'] + "  "@ + join_seqs(
            split_lines(s@),
            "\n  "@,
        ) + seq!['\n'],
        None => Seq::<char>::empty(),
    }) + seq!['\n']
}

/// The plain text of the warning entries in order.
pub open spec fn warnings_list_text(ws: Seq<ValidationWarning>) -> Seq<char>
    decreases ws,
{
    if ws.len() == 0 {
        Seq::empty()
    } else {
        warnings_list_text(ws.drop_last()) + warning_text(ws.last())
    }
}

/// The plain text of the warnings report: empty without warnings, else
/// the heading, each warning in order, and the closing rule.
pub open spec fn warnings_report_text(ws: Seq<ValidationWarning>) -> Seq<char> {
    if ws.len() == 0 {
        Seq::empty()
    } else {
        heading_text("WARNINGS"@) + seq!['\n'] + warnings_list_text(ws) + separator_text("-"@)
            + seq!['\n']
    }
}

/// The leaves of one warning entry: the bullet in bold yellow, the
/// message in yellow, and the suggestion block with its label in bold
/// cyan and the re-indented suggestion dimmed.
pub open spec fn warning_leaves(w: ValidationWarning) -> Seq<Leaf> {
    seq![
        (Leaf { text: "* "@, style: Some(bold_in(Color::Yellow)) }),
        (Leaf { text: w.message@, style: Some(plain_in(Color::Yellow)) }),
        nl_leaf(),
    ] + (match w.suggestion {
        Some(sg) => seq![
            nl_leaf(),
            (Leaf { text: "  Suggestion:"@, style: Some(bold_in(Color::Cyan)) }),
            nl_leaf(),
            (Leaf {
                text: "  "@ + join_seqs(split_lines(sg@), "\n  "@),
                style: Some(dimmed_style()),
            }),
            nl_leaf(),
        ],
        None => Seq::<Leaf>::empty(),
    }) + seq![nl_leaf()]
}

/// The leaves of the warning entries in order.
pub open spec fn warnings_list_leaves(ws: Seq<ValidationWarning>) -> Seq<Leaf>
    decreases ws,
{
    if ws.len() == 0 {
        Seq::empty()
    } else {
        warnings_list_leaves(ws.drop_last()) + warning_leaves(ws.last())
    }
}

/// The leaves of the warnings report: the heading and the closing rule
/// in yellow around the entries; a single empty unstyled leaf without
/// warnings.
pub open spec fn warnings_report_leaves(ws: Seq<ValidationWarning>) -> Seq<Leaf> {
    if ws.len() == 0 {
        seq![(Leaf { text: Seq::<char>::empty(), style: None::<Style> })]
    } else {
        heading_leaves("WARNINGS"@, Color::Yellow) + seq![nl_leaf()] + warnings_list_leaves(ws)
            + separator_leaves("-"@, Color::Yellow) + seq![nl_leaf()]
    }
}

/// Format the collected warnings as a document; an empty list renders
/// as an empty document.
#[verifier::loop_isolation(false)]
#[verifier::rlimit(100)]
pub fn format_warnings(warnings: &Vec<ValidationWarning>) -> (r: ColoredDoc)
    ensures
        plain_of(r) == warnings_report_text(warnings@),
        leaves_of(r) == warnings_report_leaves(warnings@),
{
    if warnings.len() == 0 {
        let r = ColoredDoc::text("");
        proof {
            reveal_strlit("");
            assert(plain_of(r) =~= Seq::<char>::empty());
            assert(""@ =~= Seq::<char>::empty());
            assert((Leaf { text: ""@, style: None::<Style> }) == (Leaf {
                text: Seq::<char>::empty(),
                style: None::<Style>,
            }));
            assert(leaves_of(r) =~= warnings_report_leaves(warnings@));
        }
        return r;
    }
    let ghost ws = warnings@;
    let mut doc = heading("WARNINGS", Color::Yellow).append(ColoredDoc::line());
    let ghost base = heading_text("WARNINGS"@) + seq!['\n'];
    let ghost base_leaves = heading_leaves("WARNINGS"@, Color::Yellow) + seq![nl_leaf()];
    let mut i: usize = 0;
    proof {
        assert(ws.take(0) =~= Seq::<ValidationWarning>::empty());
        assert(base + warnings_list_text(ws.take(0)) =~= base);
        assert(base_leaves + warnings_list_leaves(ws.take(0)) =~= base_leaves);
    }
    while i < warnings.len()
        invariant
            i <= ws.len(),
            plain_of(doc) == base + warnings_list_text(ws.take(i as int)),
            leaves_of(doc) == base_leaves + warnings_list_leaves(ws.take(i as int)),
        decreases ws.len() - i,
    {
        let warning = &warnings[i];
        doc = doc.append(ColoredDoc::colored_text("* ", color_spec(Color::Yellow, true))).append(
            ColoredDoc::colored_text(warning.message.as_str(), color_spec(Color::Yellow, false)),
        ).append(ColoredDoc::line());
        match &warning.suggestion {
            Some(suggestion) => {
                let lines = split_lines_vec(suggestion.as_str());
                let joined = join_with(&lines, "\n  ");
                let mut indented = "  ".to_owned();
                indented.append(joined.as_str());
                doc = doc.append(ColoredDoc::line()).append(
                    ColoredDoc::colored_text("  Suggestion:", color_spec(Color::Cyan, true)),
                ).append(ColoredDoc::line()).append(
                    ColoredDoc::colored_text(indented.as_str(), dimmed_spec()),
                ).append(ColoredDoc::line());
            }
            None => {}
        }
        doc = doc.append(ColoredDoc::line());
        proof {
            assert(ws.take(i as int + 1).drop_last() =~= ws.take(i as int));
            assert(ws.take(i as int + 1).last() == ws[i as int]);
            assert(plain_of(doc) =~= base + warnings_list_text(ws.take(i as int + 1)));
            assert(leaves_of(doc) =~= base_leaves + warnings_list_leaves(ws.take(i as int + 1)));
        }
        i = i + 1;
    }
    let r = doc.append(separator("-", Color::Yellow)).append(ColoredDoc::line());
    proof {
        assert(ws.take(ws.len() as int) =~= ws);
        assert(plain_of(r) =~= warnings_report_text(ws));
        assert(leaves_of(r) =~= warnings_report_leaves(ws));
    }
    r
}

/// The dotted physical location of a table.
pub open spec fn location_text(b: BaseTable) -> Seq<char> {
    b.database@ + "."@ + b.schema@ + "."@ + b.table@
}

/// A whole percentage followed by a percent sign.
pub open spec fn pct_whole_text(num: nat, den: nat) -> Seq<char> {
    dec_str(pct_whole(num, den)) + "%"@
}

/// A percentage with one decimal place.
pub open spec fn pct_tenths_text(num: nat, den: nat) -> Seq<char> {
    dec_str(pct_tenths(num, den) / 10) + "."@ + dec_str(pct_tenths(num, den) % 10)
}

/// The columns of the tables section: one row per table with its name,
/// location, entity counts, and data-quality percentages.
pub open spec fn tables_cols(ts: Seq<Table>) -> Seq<ColView> {
    seq![
        (ColView {
            header: "Name"@,
            alignment: Alignment::Left,
            cells: ts.map_values(|t: Table| t.name@),
        }),
        (ColView {
            header: "Location"@,
            alignment: Alignment::Left,
            cells: ts.map_values(|t: Table| location_text(t.base_table)),
        }),
        (ColView {
            header: "Dimensions"@,
            alignment: Alignment::Right,
            cells: ts.map_values(|t: Table| dec_str(t.dimensions@.len())),
        }),
        (ColView {
            header: "Time"@,
            alignment: Alignment::Right,
            cells: ts.map_values(|t: Table| dec_str(t.time_dimensions@.len())),
        }),
        (ColView {
            header: "Facts"@,
            alignment: Alignment::Right,
            cells: ts.map_values(|t: Table| dec_str(t.facts@.len())),
        }),
        (ColView {
            header: "Metrics"@,
            alignment: Alignment::Right,
            cells: ts.map_values(|t: Table| dec_str(t.metrics@.len())),
        }),
        (ColView {
            header: "Filters"@,
            alignment: Alignment::Right,
            cells: ts.map_values(|t: Table| dec_str(t.filters@.len())),
        }),
        (ColView {
            header: "Described"@,
            alignment: Alignment::Right,
            cells: ts.map_values(|t: Table| pct_whole_text(table_described(t), table_total(t))),
        }),
        (ColView {
            header: "Aliased"@,
            alignment: Alignment::Right,
            cells: ts.map_values(|t: Table| pct_whole_text(table_aliased(t), table_total(t))),
        }),
    ]
}

/// The column-pair equalities of a relationship, comma separated.
pub open spec fn rel_columns_text(r: Relationship) -> Seq<char> {
    join_seqs(
        r.relationship_columns@.map_values(
            |c: RelationshipColumn| c.left_column@ + " = "@ + c.right_column@,
        ),
        ", "@,
    )
}

/// The columns of the relationships section.
pub open spec fn rel_cols(rs: Seq<Relationship>) -> Seq<ColView> {
    seq![
        (ColView {
            header: "Name"@,
            alignment: Alignment::Left,
            cells: rs.map_values(|r: Relationship| r.name@),
        }),
        (ColView {
            header: "Join Type"@,
            alignment: Alignment::Left,
            cells: rs.map_values(|r: Relationship| r.join_type@),
        }),
        (ColView {
            header: "Left Table"@,
            alignment: Alignment::Left,
            cells: rs.map_values(|r: Relationship| r.left_table@),
        }),
        (ColView {
            header: "Right Table"@,
            alignment: Alignment::Left,
            cells: rs.map_values(|r: Relationship| r.right_table@),
        }),
        (ColView {
            header: "Type"@,
            alignment: Alignment::Left,
            cells: rs.map_values(|r: Relationship| r.relationship_type@),
        }),
        (ColView {
            header: "Columns"@,
            alignment: Alignment::Left,
            cells: rs.map_values(|r: Relationship| rel_columns_text(r)),
        }),
    ]
}

/// The columns of the verified-queries section.
pub open spec fn query_cols(qs: Seq<VerifiedQuery>) -> Seq<ColView> {
    seq![
        (ColView {
            header: "Name"@,
            alignment: Alignment::Left,
            cells: qs.map_values(|q: VerifiedQuery| q.name@),
        }),
        (ColView {
            header: "Question"@,
            alignment: Alignment::Left,
            cells: qs.map_values(|q: VerifiedQuery| q.question@),
        }),
    ]
}

/// The plain text of the tables section.
pub open spec fn tables_section_text(ts: Seq<Table>) -> Seq<char> {
    subheading_text("TABLES ("@ + dec_str(ts.len()) + ")"@) + table_text(tables_cols(ts))
        + seq!['\n']
}

/// The plain text of the relationships section.
pub open spec fn relationships_section_text(rs: Seq<Relationship>) -> Seq<char> {
    subheading_text("RELATIONSHIPS ("@ + dec_str(rs.len()) + ")"@) + (if rs.len() == 0 {
        "  No relationships defined"@ + seq!['\n']
    } else {
        table_text(rel_cols(rs))
    }) + seq!['\n']
}

/// The plain text of the verified-queries section.
pub open spec fn queries_section_text(qs: Seq<VerifiedQuery>) -> Seq<char> {
    subheading_text("VERIFIED QUERIES ("@ + dec_str(qs.len()) + ")"@) + (if qs.len() == 0 {
        "  No verified queries defined"@ + seq!['\n']
    } else {
        table_text(query_cols(qs))
    }) + seq!['\n']
}

/// The plain text shown for deprecated free-text instructions: the
/// legacy text, then an inline migration rewrite.
pub open spec fn legacy_block_text(ci: Seq<char>) -> Seq<char> {
    "  [DEPRECATED] custom_instructions:"@ + seq!['\n'] + "    "@ + join_seqs(
        split_lines(ci),
        "\n    "@,
    ) + seq!['\n'] + seq!['\n'] + "  MIGRATION NEEDED:"@ + seq!['\n']
        + "  Replace the above with:"@ + seq!['\n'] + seq!['\n']
        + "  module_custom_instructions:"@ + seq!['\n'] + "    sql_generation: |"@ + seq!['\n']
        + "      "@ + join_seqs(split_lines(ci), "\n      "@) + seq!['\n'] + seq!['\n']
}

/// The plain text shown for structured instructions: each populated
/// sub-field with its re-indented text.
pub open spec fn module_block_text(mi: ModuleCustomInstructions) -> Seq<char> {
    "  module_custom_instructions:"@ + seq!['\n'] + (match mi.question_categorization {
        Some(qc) => "    question_categorization:"@ + seq!['\n'] + "      "@ + join_seqs(
            split_lines(qc@),
            "\n      "@,
        ) + seq!['\n'] + seq!['\n'],
        None => Seq::<char>::empty(),
    }) + (match mi.sql_generation {
        Some(sg) => "    sql_generation:"@ + seq!['\n'] + "      "@ + join_seqs(
            split_lines(sg@),
            "\n      "@,
        ) + seq!['\n'],
        None => Seq::<char>::empty(),
    })
}

/// The plain text of the custom-instructions section.
pub open spec fn instructions_section_text(m: SemanticModel) -> Seq<char> {
    subheading_text("CUSTOM INSTRUCTIONS"@) + (if m.custom_instructions is None
        && m.module_custom_instructions is None {
        "  No custom instructions defined"@ + seq!['\n']
    } else {
        (match m.custom_instructions {
            Some(ci) => legacy_block_text(ci@),
            None => Seq::<char>::empty(),
        }) + (match m.module_custom_instructions {
            Some(mi) => module_block_text(mi),
            None => Seq::<char>::empty(),
        })
    }) + seq!['\n']
}

/// The plain text of the data-quality section: described and aliased
/// counts with percentages to one decimal place, and the fixed tip.
pub open spec fn quality_section_text(m: SemanticModel) -> Seq<char> {
    subheading_text("DATA QUALITY METRICS"@) + "  Described Columns:"@ + " "@ + dec_str(
        model_described(m),
    ) + " / "@ + dec_str(model_total(m)) + " "@ + "("@ + pct_tenths_text(
        model_described(m),
        model_total(m),
    ) + "%)"@ + seq!['\n'] + "  Aliased Columns:"@ + " "@ + dec_str(model_aliased(m)) + " / "@
        + dec_str(model_total(m)) + " "@ + "("@ + pct_tenths_text(
        model_aliased(m),
        model_total(m),
    ) + "%)"@ + seq!['\n'] + seq!['\n'] + "  TIP:"@
        + " Descriptions and synonyms help LLMs understand your data model better."@
        + seq!['\n'] + "       "@
        + "Aim for 80%+ described columns and 60%+ aliased columns for optimal results."@
        + seq!['\n'] + seq!['\n']
}

/// The full plain text of the success report.
pub open spec fn success_report_text(m: SemanticModel) -> Seq<char> {
    heading_text("SEMANTIC MODEL VALIDATION SUMMARY"@) + seq!['\n'] + "Name:"@ + " "@ + m.name@
        + seq!['\n'] + "Description:"@ + " "@ + m.description@ + seq!['\n'] + seq!['\n']
        + tables_section_text(m.tables@) + relationships_section_text(m.relationships@)
        + queries_section_text(m.verified_queries@) + instructions_section_text(m)
        + quality_section_text(m) + separator_text("="@) + "*"@ + " "@
        + "Validation successful!"@ + seq!['\n'] + separator_text("="@)
}

/// Build a column of plain cells from a header, an alignment, and the
/// cell texts.
#[verifier::loop_isolation(false)]
fn column_from(header: &str, align: Alignment, cells: &Vec<String>) -> (c: Column)
    ensures
        col_view(c) == (ColView {
            header: header@,
            alignment: align,
            cells: cells@.map_values(|x: String| x@),
        }),
{
    let ghost cm = cells@.map_values(|x: String| x@);
    let mut c = Column::new_aligned(header, align);
    let mut i: usize = 0;
    proof {
        assert(col_view(c).cells =~= cm.take(0));
    }
    while i < cells.len()
        invariant
            i <= cells@.len(),
            col_view(c) == (ColView { header: header@, alignment: align, cells: cm.take(i as int) }),
        decreases cells@.len() - i,
    {
        let cell = Cell::text(cells[i].as_str());
        c = c.add_cell(cell);
        proof {
            assert(col_view(c).cells =~= cm.take(i as int).push(cm[i as int]));
            assert(cm.take(i as int).push(cm[i as int]) =~= cm.take(i as int + 1));
        }
        i = i + 1;
    }
    proof {
        assert(cm.take(cells@.len() as int) =~= cm);
    }
    c
}

/// Render a whole percentage as text.
fn percent_whole_string(num: usize, den: usize) -> (r: String)
    requires
        num <= den,
    ensures
        r@ == pct_whole_text(num as nat, den as nat),
{
    let p = percent_whole(num, den);
    let mut r = usize_to_string(p);
    r.append("%");
    r
}

/// Render a percentage with one decimal place as text.
fn percent_tenths_string(num: usize, den: usize) -> (r: String)
    requires
        num <= den,
    ensures
        r@ == pct_tenths_text(num as nat, den as nat),
{
    let p = percent_tenths(num, den);
    let mut r = usize_to_string(p / 10);
    r.append(".");
    let frac = usize_to_string(p % 10);
    r.append(frac.as_str());
    r
}

/// The comma-separated column equalities of a relationship.
#[verifier::loop_isolation(false)]
fn rel_columns_string(rel: &Relationship) -> (r: String)
    ensures
        r@ == rel_columns_text(*rel),
{
    let ghost pm = rel.relationship_columns@.map_values(
        |c: RelationshipColumn| c.left_column@ + " = "@ + c.right_column@,
    );
    let mut pieces: Vec<String> = Vec::new();
    let mut i: usize = 0;
    proof {
        assert(pieces@.map_values(|x: String| x@) =~= pm.take(0));
    }
    while i < rel.relationship_columns.len()
        invariant
            i <= rel.relationship_columns@.len(),
            pieces@.map_values(|x: String| x@) == pm.take(i as int),
        decreases rel.relationship_columns@.len() - i,
    {
        let rc = &rel.relationship_columns[i];
        let mut piece = rc.left_column.clone();
        piece.append(" = ");
        piece.append(rc.right_column.as_str());
        pieces.push(piece);
        proof {
            assert(pieces@.map_values(|x: String| x@) =~= pm.take(i as int).push(pm[i as int]));
            assert(pm.take(i as int).push(pm[i as int]) =~= pm.take(i as int + 1));
        }
        i = i + 1;
    }
    proof {
        assert(pm.take(rel.relationship_columns@.len() as int) =~= pm);
    }
    join_with(&pieces, ", ")
}

/// Build the tables-section table: one row per table.
#[verifier::loop_isolation(false)]
fn tables_table(tables: &Vec<Table>) -> (t: TableRenderer)
    requires
        tables_total(tables@) <= usize::MAX,
    ensures
        table_view(t) == tables_cols(tables@),
{
    let ghost ts = tables@;
    let ghost nm = ts.map_values(|t: Table| t.name@);
    let ghost lm = ts.map_values(|t: Table| location_text(t.base_table));
    let ghost dm = ts.map_values(|t: Table| dec_str(t.dimensions@.len()));
    let ghost tm = ts.map_values(|t: Table| dec_str(t.time_dimensions@.len()));
    let ghost fm = ts.map_values(|t: Table| dec_str(t.facts@.len()));
    let ghost mm = ts.map_values(|t: Table| dec_str(t.metrics@.len()));
    let ghost flm = ts.map_values(|t: Table| dec_str(t.filters@.len()));
    let ghost dpm = ts.map_values(|t: Table| pct_whole_text(table_described(t), table_total(t)));
    let ghost apm = ts.map_values(|t: Table| pct_whole_text(table_aliased(t), table_total(t)));
    let mut names: Vec<String> = Vec::new();
    let mut locations: Vec<String> = Vec::new();
    let mut dims: Vec<String> = Vec::new();
    let mut times: Vec<String> = Vec::new();
    let mut facts: Vec<String> = Vec::new();
    let mut mets: Vec<String> = Vec::new();
    let mut filts: Vec<String> = Vec::new();
    let mut descs: Vec<String> = Vec::new();
    let mut alis: Vec<String> = Vec::new();
    let mut i: usize = 0;
    proof {
        assert(names@.map_values(|x: String| x@) =~= nm.take(0));
        assert(locations@.map_values(|x: String| x@) =~= lm.take(0));
        assert(dims@.map_values(|x: String| x@) =~= dm.take(0));
        assert(times@.map_values(|x: String| x@) =~= tm.take(0));
        assert(facts@.map_values(|x: String| x@) =~= fm.take(0));
        assert(mets@.map_values(|x: String| x@) =~= mm.take(0));
        assert(filts@.map_values(|x: String| x@) =~= flm.take(0));
        assert(descs@.map_values(|x: String| x@) =~= dpm.take(0));
        assert(alis@.map_values(|x: String| x@) =~= apm.take(0));
    }
    while i < tables.len()
        invariant
            i <= ts.len(),
            names@.map_values(|x: String| x@) == nm.take(i as int),
            locations@.map_values(|x: String| x@) == lm.take(i as int),
            dims@.map_values(|x: String| x@) == dm.take(i as int),
            times@.map_values(|x: String| x@) == tm.take(i as int),
            facts@.map_values(|x: String| x@) == fm.take(i as int),
            mets@.map_values(|x: String| x@) == mm.take(i as int),
            filts@.map_values(|x: String| x@) == flm.take(i as int),
            descs@.map_values(|x: String| x@) == dpm.take(i as int),
            alis@.map_values(|x: String| x@) == apm.take(i as int),
        decreases ts.len() - i,
    {
        let table = &tables[i];
        proof {
            lemma_tables_counts_push(ts, i as int);
            lemma_tables_total_prefix_le(ts, i as int + 1);
        }
        let (dc, tc) = count_table_described_columns(table);
        let (ac, _) = count_table_aliased_columns(table);

        names.push(table.name.clone());
        let mut loc = table.base_table.database.clone();
        loc.append(".");
        loc.append(table.base_table.schema.as_str());
        loc.append(".");
        loc.append(table.base_table.table.as_str());
        locations.push(loc);
        dims.push(usize_to_string(table.dimensions.len()));
        times.push(usize_to_string(table.time_dimensions.len()));
        facts.push(usize_to_string(table.facts.len()));
        mets.push(usize_to_string(table.metrics.len()));
        filts.push(usize_to_string(table.filters.len()));
        descs.push(percent_whole_string(dc, tc));
        alis.push(percent_whole_string(ac, tc));

        proof {
            assert(names@.map_values(|x: String| x@) =~= nm.take(i as int).push(nm[i as int]));
            assert(nm.take(i as int).push(nm[i as int]) =~= nm.take(i as int + 1));
            assert(locations@.map_values(|x: String| x@) =~= lm.take(i as int).push(
                lm[i as int],
            ));
            assert(lm.take(i as int).push(lm[i as int]) =~= lm.take(i as int + 1));
            assert(dims@.map_values(|x: String| x@) =~= dm.take(i as int).push(dm[i as int]));
            assert(dm.take(i as int).push(dm[i as int]) =~= dm.take(i as int + 1));
            assert(times@.map_values(|x: String| x@) =~= tm.take(i as int).push(tm[i as int]));
            assert(tm.take(i as int).push(tm[i as int]) =~= tm.take(i as int + 1));
            assert(facts@.map_values(|x: String| x@) =~= fm.take(i as int).push(fm[i as int]));
            assert(fm.take(i as int).push(fm[i as int]) =~= fm.take(i as int + 1));
            assert(mets@.map_values(|x: String| x@) =~= mm.take(i as int).push(mm[i as int]));
            assert(mm.take(i as int).push(mm[i as int]) =~= mm.take(i as int + 1));
            assert(filts@.map_values(|x: String| x@) =~= flm.take(i as int).push(
                flm[i as int],
            ));
            assert(flm.take(i as int).push(flm[i as int]) =~= flm.take(i as int + 1));
            assert(descs@.map_values(|x: String| x@) =~= dpm.take(i as int).push(
                dpm[i as int],
            ));
            assert(dpm.take(i as int).push(dpm[i as int]) =~= dpm.take(i as int + 1));
            assert(alis@.map_values(|x: String| x@) =~= apm.take(i as int).push(
                apm[i as int],
            ));
            assert(apm.take(i as int).push(apm[i as int]) =~= apm.take(i as int + 1));
        }
        i = i + 1;
    }
    proof {
        assert(nm.take(ts.len() as int) =~= nm);
        assert(lm.take(ts.len() as int) =~= lm);
        assert(dm.take(ts.len() as int) =~= dm);
        assert(tm.take(ts.len() as int) =~= tm);
        assert(fm.take(ts.len() as int) =~= fm);
        assert(mm.take(ts.len() as int) =~= mm);
        assert(flm.take(ts.len() as int) =~= flm);
        assert(dpm.take(ts.len() as int) =~= dpm);
        assert(apm.take(ts.len() as int) =~= apm);
    }
    let name_col = column_from("Name", Alignment::Left, &names);
    let location_col = column_from("Location", Alignment::Left, &locations);
    let dims_col = column_from("Dimensions", Alignment::Right, &dims);
    let time_col = column_from("Time", Alignment::Right, &times);
    let facts_col = column_from("Facts", Alignment::Right, &facts);
    let metrics_col = column_from("Metrics", Alignment::Right, &mets);
    let filters_col = column_from("Filters", Alignment::Right, &filts);
    let described_col = column_from("Described", Alignment::Right, &descs);
    let aliased_col = column_from("Aliased", Alignment::Right, &alis);
    let t = TableRenderer::new().add_column(name_col).add_column(location_col).add_column(
        dims_col,
    ).add_column(time_col).add_column(facts_col).add_column(metrics_col).add_column(
        filters_col,
    ).add_column(described_col).add_column(aliased_col);
    proof {
        assert(table_view(t) =~= tables_cols(ts));
    }
    t
}

/// Build the relationships-section table: one row per relationship.
#[verifier::loop_isolation(false)]
fn relationships_table(rels: &Vec<Relationship>) -> (t: TableRenderer)
    ensures
        table_view(t) == rel_cols(rels@),
{
    let ghost rs = rels@;
    let ghost nm = rs.map_values(|r: Relationship| r.name@);
    let ghost jm = rs.map_values(|r: Relationship| r.join_type@);
    let ghost lm = rs.map_values(|r: Relationship| r.left_table@);
    let ghost rm = rs.map_values(|r: Relationship| r.right_table@);
    let ghost tm = rs.map_values(|r: Relationship| r.relationship_type@);
    let ghost cm = rs.map_values(|r: Relationship| rel_columns_text(r));
    let mut names: Vec<String> = Vec::new();
    let mut joins: Vec<String> = Vec::new();
    let mut lefts: Vec<String> = Vec::new();
    let mut rights: Vec<String> = Vec::new();
    let mut types: Vec<String> = Vec::new();
    let mut cols: Vec<String> = Vec::new();
    let mut i: usize = 0;
    proof {
        assert(names@.map_values(|x: String| x@) =~= nm.take(0));
        assert(joins@.map_values(|x: String| x@) =~= jm.take(0));
        assert(lefts@.map_values(|x: String| x@) =~= lm.take(0));
        assert(rights@.map_values(|x: String| x@) =~= rm.take(0));
        assert(types@.map_values(|x: String| x@) =~= tm.take(0));
        assert(cols@.map_values(|x: String| x@) =~= cm.take(0));
    }
    while i < rels.len()
        invariant
            i <= rs.len(),
            names@.map_values(|x: String| x@) == nm.take(i as int),
            joins@.map_values(|x: String| x@) == jm.take(i as int),
            lefts@.map_values(|x: String| x@) == lm.take(i as int),
            rights@.map_values(|x: String| x@) == rm.take(i as int),
            types@.map_values(|x: String| x@) == tm.take(i as int),
            cols@.map_values(|x: String| x@) == cm.take(i as int),
        decreases rs.len() - i,
    {
        let rel = &rels[i];
        names.push(rel.name.clone());
        joins.push(rel.join_type.clone());
        lefts.push(rel.left_table.clone());
        rights.push(rel.right_table.clone());
        types.push(rel.relationship_type.clone());
        cols.push(rel_columns_string(rel));
        proof {
            assert(names@.map_values(|x: String| x@) =~= nm.take(i as int).push(nm[i as int]));
            assert(nm.take(i as int).push(nm[i as int]) =~= nm.take(i as int + 1));
            assert(joins@.map_values(|x: String| x@) =~= jm.take(i as int).push(jm[i as int]));
            assert(jm.take(i as int).push(jm[i as int]) =~= jm.take(i as int + 1));
            assert(lefts@.map_values(|x: String| x@) =~= lm.take(i as int).push(lm[i as int]));
            assert(lm.take(i as int).push(lm[i as int]) =~= lm.take(i as int + 1));
            assert(rights@.map_values(|x: String| x@) =~= rm.take(i as int).push(
                rm[i as int],
            ));
            assert(rm.take(i as int).push(rm[i as int]) =~= rm.take(i as int + 1));
            assert(types@.map_values(|x: String| x@) =~= tm.take(i as int).push(tm[i as int]));
            assert(tm.take(i as int).push(tm[i as int]) =~= tm.take(i as int + 1));
            assert(cols@.map_values(|x: String| x@) =~= cm.take(i as int).push(cm[i as int]));
            assert(cm.take(i as int).push(cm[i as int]) =~= cm.take(i as int + 1));
        }
        i = i + 1;
    }
    proof {
        assert(nm.take(rs.len() as int) =~= nm);
        assert(jm.take(rs.len() as int) =~= jm);
        assert(lm.take(rs.len() as int) =~= lm);
        assert(rm.take(rs.len() as int) =~= rm);
        assert(tm.take(rs.len() as int) =~= tm);
        assert(cm.take(rs.len() as int) =~= cm);
    }
    let t = TableRenderer::new().add_column(
        column_from("Name", Alignment::Left, &names),
    ).add_column(column_from("Join Type", Alignment::Left, &joins)).add_column(
        column_from("Left Table", Alignment::Left, &lefts),
    ).add_column(column_from("Right Table", Alignment::Left, &rights)).add_column(
        column_from("Type", Alignment::Left, &types),
    ).add_column(column_from("Columns", Alignment::Left, &cols));
    proof {
        assert(table_view(t) =~= rel_cols(rs));
    }
    t
}

/// Build the verified-queries table: one row per query.
#[verifier::loop_isolation(false)]
fn queries_table(queries: &Vec<VerifiedQuery>) -> (t: TableRenderer)
    ensures
        table_view(t) == query_cols(queries@),
{
    let ghost qs = queries@;
    let ghost nm = qs.map_values(|q: VerifiedQuery| q.name@);
    let ghost qm = qs.map_values(|q: VerifiedQuery| q.question@);
    let mut names: Vec<String> = Vec::new();
    let mut questions: Vec<String> = Vec::new();
    let mut i: usize = 0;
    proof {
        assert(names@.map_values(|x: String| x@) =~= nm.take(0));
        assert(questions@.map_values(|x: String| x@) =~= qm.take(0));
    }
    while i < queries.len()
        invariant
            i <= qs.len(),
            names@.map_values(|x: String| x@) == nm.take(i as int),
            questions@.map_values(|x: String| x@) == qm.take(i as int),
        decreases qs.len() - i,
    {
        names.push(queries[i].name.clone());
        questions.push(queries[i].question.clone());
        proof {
            assert(names@.map_values(|x: String| x@) =~= nm.take(i as int).push(nm[i as int]));
            assert(nm.take(i as int).push(nm[i as int]) =~= nm.take(i as int + 1));
            assert(questions@.map_values(|x: String| x@) =~= qm.take(i as int).push(
                qm[i as int],
            ));
            assert(qm.take(i as int).push(qm[i as int]) =~= qm.take(i as int + 1));
        }
        i = i + 1;
    }
    proof {
        assert(nm.take(qs.len() as int) =~= nm);
        assert(qm.take(qs.len() as int) =~= qm);
    }
    let t = TableRenderer::new().add_column(
        column_from("Name", Alignment::Left, &names),
    ).add_column(column_from("Question", Alignment::Left, &questions));
    proof {
        assert(table_view(t) =~= query_cols(qs));
    }
    t
}

/// A sub-field's text re-indented under a fixed prefix: the first line
/// indented by the prefix, later lines by the joined separator.
fn indented_lines(text: &str, first: &str, sep: &str) -> (r: String)
    ensures
        r@ == first@ + join_seqs(split_lines(text@), sep@),
{
    let lines = split_lines_vec(text);
    let joined = join_with(&lines, sep);
    let mut r = first.to_owned();
    r.append(joined.as_str());
    r
}

/// The leading lines of the success report: heading, name, and
/// description.
fn success_intro(model: &SemanticModel) -> (r: ColoredDoc)
    ensures
        plain_of(r) == heading_text("SEMANTIC MODEL VALIDATION SUMMARY"@) + seq!['\n']
            + "Name:"@ + " "@ + model.name@ + seq!['\n'] + "Description:"@ + " "@
            + model.description@ + seq!['\n'] + seq!['\n'],
{
    let mut name_line = " ".to_owned();
    name_line.append(model.name.as_str());
    let mut desc_line = " ".to_owned();
    desc_line.append(model.description.as_str());
    heading("SEMANTIC MODEL VALIDATION SUMMARY", Color::Blue).append(ColoredDoc::line()).append(
        ColoredDoc::colored_text("Name:", color_spec(Color::Green, true)),
    ).append(ColoredDoc::text(name_line.as_str())).append(ColoredDoc::line()).append(
        ColoredDoc::colored_text("Description:", color_spec(Color::Green, true)),
    ).append(ColoredDoc::text(desc_line.as_str())).append(ColoredDoc::line()).append(
        ColoredDoc::line(),
    )
}

/// The tables section of the success report.
fn tables_section(tables: &Vec<Table>) -> (r: ColoredDoc)
    requires
        tables_total(tables@) <= usize::MAX,
    ensures
        plain_of(r) == tables_section_text(tables@),
{
    let mut title = "TABLES (".to_owned();
    title.append(usize_to_string(tables.len()).as_str());
    title.append(")");
    let tbl = tables_table(tables);
    let r = subheading(title.as_str(), Color::Yellow).append(tbl.render()).append(
        ColoredDoc::line(),
    );
    proof {
        assert(plain_of(r) =~= tables_section_text(tables@));
    }
    r
}

/// The relationships section of the success report.
fn relationships_section(rels: &Vec<Relationship>) -> (r: ColoredDoc)
    ensures
        plain_of(r) == relationships_section_text(rels@),
{
    let mut title = "RELATIONSHIPS (".to_owned();
    title.append(usize_to_string(rels.len()).as_str());
    title.append(")");
    let mut doc = subheading(title.as_str(), Color::Yellow);
    if rels.len() == 0 {
        doc = doc.append(
            ColoredDoc::colored_text("  No relationships defined", dimmed_spec()),
        ).append(ColoredDoc::line());
    } else {
        let tbl = relationships_table(rels);
        doc = doc.append(tbl.render());
    }
    let r = doc.append(ColoredDoc::line());
    proof {
        assert(plain_of(r) =~= relationships_section_text(rels@));
    }
    r
}

/// The verified-queries section of the success report.
fn queries_section(queries: &Vec<VerifiedQuery>) -> (r: ColoredDoc)
    ensures
        plain_of(r) == queries_section_text(queries@),
{
    let mut title = "VERIFIED QUERIES (".to_owned();
    title.append(usize_to_string(queries.len()).as_str());
    title.append(")");
    let mut doc = subheading(title.as_str(), Color::Yellow);
    if queries.len() == 0 {
        doc = doc.append(
            ColoredDoc::colored_text("  No verified queries defined", dimmed_spec()),
        ).append(ColoredDoc::line());
    } else {
        let tbl = queries_table(queries);
        doc = doc.append(tbl.render());
    }
    let r = doc.append(ColoredDoc::line());
    proof {
        assert(plain_of(r) =~= queries_section_text(queries@));
    }
    r
}

/// The block shown for the deprecated free-text instructions field.
fn legacy_block(instructions: &str) -> (r: ColoredDoc)
    ensures
        plain_of(r) == legacy_block_text(instructions@),
{
    let body = indented_lines(instructions, "    ", "\n    ");
    let rewrite = indented_lines(instructions, "      ", "\n      ");
    let r = ColoredDoc::colored_text(
        "  [DEPRECATED] custom_instructions:",
        color_spec(Color::Yellow, true),
    ).append(ColoredDoc::line()).append(
        ColoredDoc::colored_text(body.as_str(), dimmed_spec()),
    ).append(ColoredDoc::line()).append(ColoredDoc::line()).append(
        ColoredDoc::colored_text("  MIGRATION NEEDED:", color_spec(Color::Cyan, true)),
    ).append(ColoredDoc::line()).append(
        ColoredDoc::colored_text("  Replace the above with:", color_spec(Color::Cyan, false)),
    ).append(ColoredDoc::line()).append(ColoredDoc::line()).append(
        ColoredDoc::colored_text(
            "  module_custom_instructions:",
            color_spec(Color::Green, false),
        ),
    ).append(ColoredDoc::line()).append(
        ColoredDoc::colored_text("    sql_generation: |", color_spec(Color::Green, false)),
    ).append(ColoredDoc::line()).append(
        ColoredDoc::colored_text(rewrite.as_str(), color_spec(Color::Green, false)),
    ).append(ColoredDoc::line()).append(ColoredDoc::line());
    proof {
        assert(plain_of(r) =~= legacy_block_text(instructions@));
    }
    r
}

/// The block shown for structured instructions.
fn module_block(module_instructions: &ModuleCustomInstructions) -> (r: ColoredDoc)
    ensures
        plain_of(r) == module_block_text(*module_instructions),
{
    let mut doc = ColoredDoc::colored_text(
        "  module_custom_instructions:",
        color_spec(Color::Cyan, true),
    ).append(ColoredDoc::line());
    match &module_instructions.question_categorization {
        Some(question_cat) => {
            let body = indented_lines(question_cat.as_str(), "      ", "\n      ");
            doc = doc.append(
                ColoredDoc::colored_text(
                    "    question_categorization:",
                    color_spec(Color::White, true),
                ),
            ).append(ColoredDoc::line()).append(
                ColoredDoc::colored_text(body.as_str(), dimmed_spec()),
            ).append(ColoredDoc::line()).append(ColoredDoc::line());
        }
        None => {}
    }
    match &module_instructions.sql_generation {
        Some(sql_gen) => {
            let body = indented_lines(sql_gen.as_str(), "      ", "\n      ");
            doc = doc.append(
                ColoredDoc::colored_text("    sql_generation:", color_spec(Color::White, true)),
            ).append(ColoredDoc::line()).append(
                ColoredDoc::colored_text(body.as_str(), dimmed_spec()),
            ).append(ColoredDoc::line());
        }
        None => {}
    }
    proof {
        assert(plain_of(doc) =~= module_block_text(*module_instructions));
    }
    doc
}

/// The custom-instructions section of the success report.
fn instructions_section(model: &SemanticModel) -> (r: ColoredDoc)
    ensures
        plain_of(r) == instructions_section_text(*model),
{
    let mut doc = subheading("CUSTOM INSTRUCTIONS", Color::Yellow);
    if model.custom_instructions.is_none() && model.module_custom_instructions.is_none() {
        doc = doc.append(
            ColoredDoc::colored_text("  No custom instructions defined", dimmed_spec()),
        ).append(ColoredDoc::line());
    } else {
        match &model.custom_instructions {
            Some(instructions) => {
                doc = doc.append(legacy_block(instructions.as_str()));
            }
            None => {}
        }
        match &model.module_custom_instructions {
            Some(module_instructions) => {
                doc = doc.append(module_block(module_instructions));
            }
            None => {}
        }
    }
    let r = doc.append(ColoredDoc::line());
    proof {
        assert(plain_of(r) =~= instructions_section_text(*model));
    }
    r
}

/// The color grading of the described-columns share: green from 80%,
/// yellow from 50%, red below — red too when there is nothing to count.
pub open spec fn described_tier(num: nat, den: nat) -> Color {
    if den > 0 && num * 100 >= den * 80 {
        Color::Green
    } else if den > 0 && num * 100 >= den * 50 {
        Color::Yellow
    } else {
        Color::Red
    }
}

/// The color grading of the aliased-columns share: green from 60%,
/// yellow from 30%, red below — red too when there is nothing to count.
pub open spec fn aliased_tier(num: nat, den: nat) -> Color {
    if den > 0 && num * 100 >= den * 60 {
        Color::Green
    } else if den > 0 && num * 100 >= den * 30 {
        Color::Yellow
    } else {
        Color::Red
    }
}

/// The percentage leaf of the described-columns line, carrying its
/// tier color, bold.
pub open spec fn described_pct_leaf(m: SemanticModel) -> Leaf {
    Leaf {
        text: "("@ + pct_tenths_text(model_described(m), model_total(m)) + "%)"@,
        style: Some(bold_in(described_tier(model_described(m), model_total(m)))),
    }
}

/// The percentage leaf of the aliased-columns line, carrying its tier
/// color, bold.
pub open spec fn aliased_pct_leaf(m: SemanticModel) -> Leaf {
    Leaf {
        text: "("@ + pct_tenths_text(model_aliased(m), model_total(m)) + "%)"@,
        style: Some(bold_in(aliased_tier(model_aliased(m), model_total(m)))),
    }
}

/// The leaves of the data-quality section: labels in bold cyan, counts
/// unstyled, each percentage bold in its tier color, and the fixed tip
/// in bold magenta.
pub open spec fn quality_section_leaves(m: SemanticModel) -> Seq<Leaf> {
    subheading_leaves("DATA QUALITY METRICS"@, Color::Yellow) + seq![
        (Leaf { text: "  Described Columns:"@, style: Some(bold_in(Color::Cyan)) }),
        (Leaf {
            text: " "@ + dec_str(model_described(m)) + " / "@ + dec_str(model_total(m)) + " "@,
            style: None::<Style>,
        }),
        described_pct_leaf(m),
        nl_leaf(),
        (Leaf { text: "  Aliased Columns:"@, style: Some(bold_in(Color::Cyan)) }),
        (Leaf {
            text: " "@ + dec_str(model_aliased(m)) + " / "@ + dec_str(model_total(m)) + " "@,
            style: None::<Style>,
        }),
        aliased_pct_leaf(m),
        nl_leaf(),
        nl_leaf(),
        (Leaf { text: "  TIP:"@, style: Some(bold_in(Color::Magenta)) }),
        (Leaf {
            text: " Descriptions and synonyms help LLMs understand your data model better."@,
            style: None::<Style>,
        }),
        nl_leaf(),
        (Leaf { text: "       "@, style: Some(bold_in(Color::Magenta)) }),
        (Leaf {
            text: "Aim for 80%+ described columns and 60%+ aliased columns for optimal results."@,
            style: None::<Style>,
        }),
        nl_leaf(),
        nl_leaf(),
    ]
}

/// The data-quality section of the success report.
#[verifier::rlimit(100)]
fn quality_section(model: &SemanticModel) -> (r: ColoredDoc)
    requires
        model_total(*model) <= usize::MAX,
    ensures
        plain_of(r) == quality_section_text(*model),
        leaves_of(r) == quality_section_leaves(*model),
{
    let (described_count, total_columns) = count_described_columns(model);
    let (aliased_count, _) = count_aliased_columns(model);

    let described_color = if total_columns > 0 && (described_count as u128) * 100 >= (
    total_columns as u128) * 80 {
        Color::Green
    } else if total_columns > 0 && (described_count as u128) * 100 >= (total_columns as u128)
        * 50 {
        Color::Yellow
    } else {
        Color::Red
    };
    let aliased_color = if total_columns > 0 && (aliased_count as u128) * 100 >= (
    total_columns as u128) * 60 {
        Color::Green
    } else if total_columns > 0 && (aliased_count as u128) * 100 >= (total_columns as u128)
        * 30 {
        Color::Yellow
    } else {
        Color::Red
    };
    proof {
        assert(described_color == described_tier(model_described(*model), model_total(*model)));
        assert(aliased_color == aliased_tier(model_aliased(*model), model_total(*model)));
    }

    let mut described_frac = " ".to_owned();
    described_frac.append(usize_to_string(described_count).as_str());
    described_frac.append(" / ");
    described_frac.append(usize_to_string(total_columns).as_str());
    described_frac.append(" ");
    let mut described_pct = "(".to_owned();
    described_pct.append(percent_tenths_string(described_count, total_columns).as_str());
    described_pct.append("%)");

    let mut aliased_frac = " ".to_owned();
    aliased_frac.append(usize_to_string(aliased_count).as_str());
    aliased_frac.append(" / ");
    aliased_frac.append(usize_to_string(total_columns).as_str());
    aliased_frac.append(" ");
    let mut aliased_pct = "(".to_owned();
    aliased_pct.append(percent_tenths_string(aliased_count, total_columns).as_str());
    aliased_pct.append("%)");

    let doc = subheading("DATA QUALITY METRICS", Color::Yellow).append(
        ColoredDoc::colored_text("  Described Columns:", color_spec(Color::Cyan, true)),
    ).append(ColoredDoc::text(described_frac.as_str())).append(
        ColoredDoc::colored_text(described_pct.as_str(), color_spec(described_color, true)),
    ).append(ColoredDoc::line()).append(
        ColoredDoc::colored_text("  Aliased Columns:", color_spec(Color::Cyan, true)),
    ).append(ColoredDoc::text(aliased_frac.as_str())).append(
        ColoredDoc::colored_text(aliased_pct.as_str(), color_spec(aliased_color, true)),
    ).append(ColoredDoc::line()).append(ColoredDoc::line());
    let ghost half = subheading_text("DATA QUALITY METRICS"@) + "  Described Columns:"@ + " "@
        + dec_str(model_described(*model)) + " / "@ + dec_str(model_total(*model)) + " "@
        + "("@ + pct_tenths_text(model_described(*model), model_total(*model)) + "%)"@
        + seq!['\n'] + "  Aliased Columns:"@ + " "@ + dec_str(model_aliased(*model)) + " / "@
        + dec_str(model_total(*model)) + " "@ + "("@ + pct_tenths_text(
        model_aliased(*model),
        model_total(*model),
    ) + "%)"@ + seq!['\n'] + seq!['\n'];
    let ghost half_leaves = subheading_leaves("DATA QUALITY METRICS"@, Color::Yellow) + seq![
        (Leaf { text: "  Described Columns:"@, style: Some(bold_in(Color::Cyan)) }),
        (Leaf {
            text: " "@ + dec_str(model_described(*model)) + " / "@ + dec_str(
                model_total(*model),
            ) + " "@,
            style: None::<Style>,
        }),
        described_pct_leaf(*model),
        nl_leaf(),
        (Leaf { text: "  Aliased Columns:"@, style: Some(bold_in(Color::Cyan)) }),
        (Leaf {
            text: " "@ + dec_str(model_aliased(*model)) + " / "@ + dec_str(model_total(*model))
                + " "@,
            style: None::<Style>,
        }),
        aliased_pct_leaf(*model),
        nl_leaf(),
        nl_leaf(),
    ];
    proof {
        assert(plain_of(doc) =~= half);
        assert(leaves_of(doc) =~= half_leaves);
    }
    let r = doc.append(
        ColoredDoc::colored_text("  TIP:", color_spec(Color::Magenta, true)),
    ).append(
        ColoredDoc::text(
            " Descriptions and synonyms help LLMs understand your data model better.",
        ),
    ).append(ColoredDoc::line()).append(
        ColoredDoc::colored_text("       ", color_spec(Color::Magenta, true)),
    ).append(
        ColoredDoc::text(
            "Aim for 80%+ described columns and 60%+ aliased columns for optimal results.",
        ),
    ).append(ColoredDoc::line()).append(ColoredDoc::line());
    proof {
        assert(plain_of(r) =~= quality_section_text(*model));
        assert(leaves_of(r) =~= quality_section_leaves(*model));
    }
    r
}

/// Format a successful validation result as a document: the heading and
/// identity lines, a section per part of the model, the aggregate
/// data-quality metrics, and the closing success banner. Each
/// data-quality percentage leaf carries its tier color — green, yellow,
/// or red per the 80/50 described and 60/30 aliased thresholds — bold.
pub fn format_success(model: &SemanticModel) -> (r: ColoredDoc)
    requires
        model_total(*model) <= usize::MAX,
    ensures
        plain_of(r) == success_report_text(*model),
        leaves_of(r).contains(described_pct_leaf(*model)),
        leaves_of(r).contains(aliased_pct_leaf(*model)),
{
    let body = success_intro(model).append(tables_section(&model.tables)).append(
        relationships_section(&model.relationships),
    ).append(queries_section(&model.verified_queries)).append(instructions_section(model));
    let quality = quality_section(model);
    let ghost ql = leaves_of(quality);
    let doc = body.append(quality);
    proof {
        assert(ql[6] == described_pct_leaf(*model));
        assert(ql.contains(described_pct_leaf(*model)));
        assert(ql[10] == aliased_pct_leaf(*model));
        assert(ql.contains(aliased_pct_leaf(*model)));
        lemma_concat_contains_right(leaves_of(body), ql, described_pct_leaf(*model));
        lemma_concat_contains_right(leaves_of(body), ql, aliased_pct_leaf(*model));
    }
    let f1 = doc.append(separator("=", Color::Blue));
    proof {
        lemma_concat_contains_left(
            leaves_of(doc),
            separator_leaves("="@, Color::Blue),
            described_pct_leaf(*model),
        );
        lemma_concat_contains_left(
            leaves_of(doc),
            separator_leaves("="@, Color::Blue),
            aliased_pct_leaf(*model),
        );
    }
    let ghost f1l = leaves_of(f1);
    let star = ColoredDoc::colored_text("*", color_spec(Color::Green, true));
    let ghost starl = leaves_of(star);
    let f2 = f1.append(star);
    proof {
        lemma_concat_contains_left(f1l, starl, described_pct_leaf(*model));
        lemma_concat_contains_left(f1l, starl, aliased_pct_leaf(*model));
    }
    let space = ColoredDoc::text(" ");
    let ghost f2l = leaves_of(f2);
    let ghost spacel = leaves_of(space);
    let f3 = f2.append(space);
    proof {
        lemma_concat_contains_left(f2l, spacel, described_pct_leaf(*model));
        lemma_concat_contains_left(f2l, spacel, aliased_pct_leaf(*model));
    }
    let banner = ColoredDoc::colored_text(
        "Validation successful!",
        color_spec(Color::Green, false),
    );
    let ghost f3l = leaves_of(f3);
    let ghost bannerl = leaves_of(banner);
    let f4 = f3.append(banner);
    proof {
        lemma_concat_contains_left(f3l, bannerl, described_pct_leaf(*model));
        lemma_concat_contains_left(f3l, bannerl, aliased_pct_leaf(*model));
    }
    let nl = ColoredDoc::line();
    let ghost f4l = leaves_of(f4);
    let ghost nll = leaves_of(nl);
    let f5 = f4.append(nl);
    proof {
        lemma_concat_contains_left(f4l, nll, described_pct_leaf(*model));
        lemma_concat_contains_left(f4l, nll, aliased_pct_leaf(*model));
    }
    let ghost f5l = leaves_of(f5);
    let r = f5.append(separator("=", Color::Blue));
    proof {
        lemma_concat_contains_left(
            f5l,
            separator_leaves("="@, Color::Blue),
            described_pct_leaf(*model),
        );
        lemma_concat_contains_left(
            f5l,
            separator_leaves("="@, Color::Blue),
            aliased_pct_leaf(*model),
        );
        assert(plain_of(r) =~= success_report_text(*model));
    }
    r
}

} // verus!

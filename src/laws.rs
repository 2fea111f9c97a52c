use vstd::prelude::*;
use crate::cli::flag_selection;
use crate::counter::{Counter, CounterSettings, Counts, Field, stream_counts};
use crate::report::{counts_row, num_digits, report_rows, report_width, totals, widest, widest_of};

verus! {

/// Adding counts is commutative.
pub proof fn law_add_commutative(a: Counts, b: Counts)
    ensures
        a.plus(b) == b.plus(a),
{
}

/// Adding counts is associative.
pub proof fn law_add_associative(a: Counts, b: Counts, c: Counts)
    ensures
        a.plus(b).plus(c) == a.plus(b.plus(c)),
{
}

/// Adding zero counts changes nothing.
pub proof fn law_add_zero(a: Counts)
    ensures
        a.plus(Counts::zero()) == a,
        Counts::zero().plus(a) == a,
{
}

/// An empty stream adds nothing, whatever fields are active.
pub proof fn law_empty_stream(settings: CounterSettings, lines: Seq<String>)
    requires
        lines.len() == 0,
    ensures
        settings.select(stream_counts(lines)) == Counts::zero(),
{
}

/// When no flag is given, lines, words and bytes are counted and shown,
/// characters are not: their count stays zero whatever the text.
pub proof fn law_default_excludes_chars(c: Counts)
    ensures
        flag_selection(None, None, None, None) == CounterSettings::default_selection(),
        CounterSettings::default_selection().active_fields() == seq![
            Field::Lines,
            Field::Words,
            Field::Bytes,
        ],
        CounterSettings::default_selection().select(c).chars == 0,
{
    assert(CounterSettings::default_selection().active_fields() =~= seq![
        Field::Lines,
        Field::Words,
        Field::Bytes,
    ]);
}

/// With one input the report has one row and no totals row; with two or
/// more, a totals row comes last and holds the field-wise sum of the
/// counters without a message.
pub proof fn law_totals_row(cs: Seq<Counter>, settings: CounterSettings)
    ensures
        cs.len() <= 1 ==> report_rows(cs, settings).len() == cs.len(),
        cs.len() >= 2 ==> report_rows(cs, settings).len() == cs.len() + 1
            && report_rows(cs, settings).last() == counts_row(
            totals(cs),
            "total"@,
            settings.active_fields(),
            report_width(cs, settings.active_fields()),
        ),
{
}

/// A counter with a message shows that message as its only row and adds
/// nothing to the totals.
pub proof fn law_message_row(cs: Seq<Counter>, k: int, settings: CounterSettings)
    requires
        0 <= k < cs.len(),
        cs[k].err is Some,
    ensures
        report_rows(cs, settings)[k] == cs[k].err->Some_0@,
        totals(cs) == totals(cs.remove(k)),
    decreases cs.len(),
{
    if k < cs.len() - 1 {
        law_message_row(cs.drop_last(), k, settings);
        assert(cs.drop_last().remove(k) =~= cs.remove(k).drop_last());
    } else {
        assert(cs.remove(k) =~= cs.drop_last());
    }
}

proof fn lemma_widest_bounds(c: Counts, fields: Seq<Field>, j: int)
    requires
        0 <= j < fields.len(),
    ensures
        num_digits(c.get(fields[j])) <= widest(c, fields),
    decreases fields.len(),
{
    if j < fields.len() - 1 {
        lemma_widest_bounds(c, fields.drop_last(), j);
    }
}

proof fn lemma_widest_of_bounds(cs: Seq<Counter>, fields: Seq<Field>, i: int)
    requires
        0 <= i < cs.len(),
        cs[i].err is None,
    ensures
        widest(cs[i].counts(), fields) <= widest_of(cs, fields),
    decreases cs.len(),
{
    if i < cs.len() - 1 {
        lemma_widest_of_bounds(cs.drop_last(), fields, i);
    }
}

/// Every value shown in a row of counts fits the shared column width.
pub proof fn law_width_fits(cs: Seq<Counter>, settings: CounterSettings, i: int, j: int)
    requires
        0 <= i < cs.len(),
        cs[i].err is None,
        0 <= j < settings.active_fields().len(),
    ensures
        num_digits(cs[i].counts().get(settings.active_fields()[j])) <= report_width(
            cs,
            settings.active_fields(),
        ),
        cs.len() >= 2 ==> num_digits(totals(cs).get(settings.active_fields()[j])) <= report_width(
            cs,
            settings.active_fields(),
        ),
{
    let fields = settings.active_fields();
    lemma_widest_bounds(cs[i].counts(), fields, j);
    lemma_widest_of_bounds(cs, fields, i);
    lemma_widest_bounds(totals(cs), fields, j);
}

proof fn lemma_widest_attained(c: Counts, fields: Seq<Field>) -> (j: int)
    ensures
        fields.len() == 0 ==> widest(c, fields) == 0,
        fields.len() > 0 ==> 0 <= j < fields.len() && num_digits(c.get(fields[j])) == widest(
            c,
            fields,
        ),
    decreases fields.len(),
{
    if fields.len() == 0 {
        0
    } else {
        let k = lemma_widest_attained(c, fields.drop_last());
        if fields.len() > 1 && widest(c, fields.drop_last()) >= num_digits(c.get(fields.last())) {
            k
        } else {
            fields.len() - 1
        }
    }
}

proof fn lemma_widest_of_attained(cs: Seq<Counter>, fields: Seq<Field>) -> (i: int)
    ensures
        widest_of(cs, fields) > 0 ==> 0 <= i < cs.len() && cs[i].err is None && widest(
            cs[i].counts(),
            fields,
        ) == widest_of(cs, fields),
    decreases cs.len(),
{
    if cs.len() == 0 {
        0
    } else {
        let k = lemma_widest_of_attained(cs.drop_last(), fields);
        if cs.last().err.is_some() || widest_of(cs.drop_last(), fields) >= widest(
            cs.last().counts(),
            fields,
        ) {
            k
        } else {
            cs.len() - 1
        }
    }
}

/// The shared column width is one, or the digit count of some value shown
/// in a row of counts: no wider than the widest value.
pub proof fn law_width_attained(cs: Seq<Counter>, settings: CounterSettings)
    ensures
        ({
            let fields = settings.active_fields();
            let w = report_width(cs, fields);
            ||| w == 1
            ||| exists|i: int, j: int|
                0 <= i < cs.len() && cs[i].err is None && 0 <= j < fields.len() && num_digits(
                    #[trigger] cs[i].counts().get(fields[j]),
                ) == w
            ||| cs.len() >= 2 && exists|j: int|
                0 <= j < fields.len() && num_digits(#[trigger] totals(cs).get(fields[j])) == w
        }),
{
    let fields = settings.active_fields();
    let w = report_width(cs, fields);
    let i = lemma_widest_of_attained(cs, fields);
    let t = lemma_widest_attained(totals(cs), fields);
    if w > 1 {
        if cs.len() >= 2 && widest(totals(cs), fields) == w {
            assert(num_digits(totals(cs).get(fields[t])) == w);
        } else {
            let j = lemma_widest_attained(cs[i].counts(), fields);
            assert(num_digits(cs[i].counts().get(fields[j])) == w);
        }
    }
}

} // verus!

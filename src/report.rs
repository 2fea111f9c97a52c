use vstd::prelude::*;
use crate::counter::{Counter, CounterSettings, Counts, Field};

verus! {

/// The decimal digit for `d < 10`.
pub open spec fn digit_char(d: nat) -> char {
    seq!['0', '1', '2', '3', '4', '5', '6', '7', '8', '9'][d as int]
}

/// The decimal notation of `n`, without leading zeros.
pub open spec fn decimal(n: nat) -> Seq<char>
    decreases n,
{
    if n < 10 {
        seq![digit_char(n)]
    } else {
        decimal(n / 10).push(digit_char(n % 10))
    }
}

/// How many decimal digits `n` has.
pub open spec fn num_digits(n: nat) -> nat
    decreases n,
{
    if n < 10 {
        1
    } else {
        1 + num_digits(n / 10)
    }
}

pub open spec fn spaces(n: nat) -> Seq<char> {
    Seq::new(n, |i: int| ' ')
}

/// `s` right-aligned in `width` columns.
pub open spec fn pad_left(s: Seq<char>, width: nat) -> Seq<char> {
    if s.len() < width {
        spaces((width - s.len()) as nat) + s
    } else {
        s
    }
}

/// One cell per field, in order: the value right-aligned in `width`
/// columns, then a space.
pub open spec fn cells(c: Counts, fields: Seq<Field>, width: nat) -> Seq<char>
    decreases fields.len(),
{
    if fields.len() == 0 {
        Seq::empty()
    } else {
        cells(c, fields.drop_last(), width) + pad_left(decimal(c.get(fields.last())), width)
            + seq![' ']
    }
}

/// The row of counts `c` under `name`.
pub open spec fn counts_row(c: Counts, name: Seq<char>, fields: Seq<Field>, width: nat) -> Seq<
    char,
> {
    cells(c, fields, width) + name
}

/// The row of one counter: its message if it has one, else its counts.
pub open spec fn counter_row(c: Counter, fields: Seq<Field>, width: nat) -> Seq<char> {
    match c.err {
        Some(e) => e@,
        None => counts_row(c.counts(), c.name@, fields, width),
    }
}

/// The field-wise sum of the counters without a message.
pub open spec fn totals(cs: Seq<Counter>) -> Counts
    decreases cs.len(),
{
    if cs.len() == 0 {
        Counts::zero()
    } else if cs.last().err.is_some() {
        totals(cs.drop_last())
    } else {
        totals(cs.drop_last()).plus(cs.last().counts())
    }
}

/// The most digits of any of `fields` in `c` (zero when there are no fields).
pub open spec fn widest(c: Counts, fields: Seq<Field>) -> nat
    decreases fields.len(),
{
    if fields.len() == 0 {
        0
    } else {
        vstd::math::max(
            widest(c, fields.drop_last()) as int,
            num_digits(c.get(fields.last())) as int,
        ) as nat
    }
}

/// The most digits of any displayed value of the counters without a message.
pub open spec fn widest_of(cs: Seq<Counter>, fields: Seq<Field>) -> nat
    decreases cs.len(),
{
    if cs.len() == 0 {
        0
    } else if cs.last().err.is_some() {
        widest_of(cs.drop_last(), fields)
    } else {
        vstd::math::max(
            widest_of(cs.drop_last(), fields) as int,
            widest(cs.last().counts(), fields) as int,
        ) as nat
    }
}

/// Whether the report ends with a totals row: only for more than one input.
pub open spec fn has_totals(cs: Seq<Counter>) -> bool {
    cs.len() > 1
}

/// The shared column width: the most digits of any displayed value, and at
/// least one.
pub open spec fn report_width(cs: Seq<Counter>, fields: Seq<Field>) -> nat {
    let w = vstd::math::max(
        widest_of(cs, fields) as int,
        if has_totals(cs) {
            widest(totals(cs), fields) as int
        } else {
            0
        },
    );
    vstd::math::max(w, 1) as nat
}

/// The rows of the report: one per counter in order, then the totals row
/// when there is more than one counter.
pub open spec fn report_rows(cs: Seq<Counter>, settings: CounterSettings) -> Seq<Seq<char>> {
    let fields = settings.active_fields();
    let width = report_width(cs, fields);
    let rows = Seq::new(cs.len(), |i: int| counter_row(cs[i], fields, width));
    if has_totals(cs) {
        rows.push(counts_row(totals(cs), "total"@, fields, width))
    } else {
        rows
    }
}

proof fn lemma_decimal_len(n: nat)
    ensures
        decimal(n).len() == num_digits(n),
    decreases n,
{
    if n >= 10 {
        lemma_decimal_len(n / 10);
    }
}

proof fn lemma_totals_prefix_le(cs: Seq<Counter>, i: int)
    requires
        0 <= i <= cs.len(),
    ensures
        totals(cs.take(i)).le(totals(cs)),
    decreases cs.len() - i,
{
    if i < cs.len() {
        lemma_totals_prefix_le(cs, i + 1);
        assert(cs.take(i + 1).drop_last() =~= cs.take(i));
    } else {
        assert(cs.take(i) =~= cs);
    }
}

/// The one-character string of the digit `d`.
fn digit_str(d: u64) -> (r: &'static str)
    requires
        d < 10,
    ensures
        r@ == seq![digit_char(d as nat)],
{
    let digits = "0123456789";
    proof {
        reveal_strlit("0123456789");
    }
    let r = digits.substring_ascii(d as usize, d as usize + 1);
    assert(r@ =~= seq![digit_char(d as nat)]);
    r
}

/// The decimal notation of `n`.
pub fn decimal_string(n: u64) -> (r: String)
    ensures
        r@ == decimal(n as nat),
    decreases n,
{
    if n < 10 {
        String::from_str(digit_str(n))
    } else {
        let mut s = decimal_string(n / 10);
        s.append(digit_str(n % 10));
        assert(s@ =~= decimal(n as nat));
        s
    }
}

/// Appends the cell of `value`: right-aligned in `width` columns, then a space.
fn push_cell(out: &mut String, value: u64, width: usize)
    ensures
        final(out)@ == old(out)@ + pad_left(decimal(value as nat), width as nat) + seq![' '],
{
    let s = decimal_string(value);
    let len = s.as_str().unicode_len();
    let ghost start = out@;
    let mut k: usize = len;
    while k < width
        invariant
            len <= k,
            len < width ==> k <= width,
            len >= width ==> k == len,
            out@ == start + spaces((k - len) as nat),
        decreases width - k,
    {
        proof {
            reveal_strlit(" ");
        }
        out.append(" ");
        assert(spaces((k - len) as nat) + " "@ =~= spaces((k + 1 - len) as nat));
        k = k + 1;
    }
    proof {
        reveal_strlit(" ");
        if len >= width {
            assert(spaces((k - len) as nat) =~= Seq::empty());
        }
    }
    out.append(s.as_str());
    out.append(" ");
    assert(out@ =~= start + pad_left(decimal(value as nat), width as nat) + seq![' ']);
}

/// The row of the counts of `c` under its name.
fn render_counts(c: &Counter, fields: &Vec<Field>, width: usize) -> (r: String)
    ensures
        r@ == counts_row(c.counts(), c.name@, fields@, width as nat),
{
    let mut out = String::new();
    let mut j: usize = 0;
    while j < fields.len()
        invariant
            j <= fields@.len(),
            out@ == cells(c.counts(), fields@.take(j as int), width as nat),
        decreases fields@.len() - j,
    {
        proof {
            let next = fields@.take(j + 1);
            assert(next.drop_last() =~= fields@.take(j as int));
            assert(next.last() == fields@[j as int]);
        }
        push_cell(&mut out, c.index(fields[j]), width);
        j = j + 1;
    }
    assert(fields@.take(j as int) =~= fields@);
    out.append(c.name.as_str());
    out
}

/// The row of one counter: its message if it has one, else its counts.
pub fn render_row(c: &Counter, fields: &Vec<Field>, width: usize) -> (r: String)
    ensures
        r@ == counter_row(*c, fields@, width as nat),
{
    match &c.err {
        Some(e) => e.clone(),
        None => render_counts(c, fields, width),
    }
}

/// The most digits of any of `fields` in `c`.
fn widest_digits(c: &Counter, fields: &Vec<Field>) -> (r: usize)
    ensures
        r == widest(c.counts(), fields@),
{
    let mut w: usize = 0;
    let mut j: usize = 0;
    while j < fields.len()
        invariant
            j <= fields@.len(),
            w == widest(c.counts(), fields@.take(j as int)),
        decreases fields@.len() - j,
    {
        proof {
            let next = fields@.take(j + 1);
            assert(next.drop_last() =~= fields@.take(j as int));
            assert(next.last() == fields@[j as int]);
            lemma_decimal_len(c.counts().get(fields@[j as int]));
        }
        let s = decimal_string(c.index(fields[j]));
        let d = s.as_str().unicode_len();
        if d > w {
            w = d;
        }
        j = j + 1;
    }
    assert(fields@.take(j as int) =~= fields@);
    w
}

/// Renders the report: one row per counter in order (its counts, or its
/// message), then a totals row when there is more than one counter. The
/// active fields of `settings` are shown right-aligned in one shared width.
pub fn render_report(counters: &Vec<Counter>, settings: &CounterSettings) -> (r: Vec<String>)
    requires
        totals(counters@).fits(),
    ensures
        r@.len() == report_rows(counters@, *settings).len(),
        forall|i: int| 0 <= i < r@.len() ==> r@[i]@ == report_rows(counters@, *settings)[i],
{
    let ghost cs = counters@;
    let fields = settings.counted_fields();
    let mut total = Counter::new(String::from_str("total"), *settings);
    let mut w: usize = 0;
    let mut i: usize = 0;
    while i < counters.len()
        invariant
            i <= cs.len(),
            cs == counters@,
            totals(cs).fits(),
            total.counts() == totals(cs.take(i as int)),
            total.name@ == "total"@,
            w == widest_of(cs.take(i as int), fields@),
        decreases cs.len() - i,
    {
        proof {
            let next = cs.take(i + 1);
            assert(next.drop_last() =~= cs.take(i as int));
            assert(next.last() == cs[i as int]);
            lemma_totals_prefix_le(cs, i + 1);
        }
        if counters[i].err.is_none() {
            total.add(&counters[i]);
            let d = widest_digits(&counters[i], &fields);
            if d > w {
                w = d;
            }
        }
        i = i + 1;
    }
    assert(cs.take(i as int) =~= cs);
    if counters.len() > 1 {
        let d = widest_digits(&total, &fields);
        if d > w {
            w = d;
        }
    }
    if w < 1 {
        w = 1;
    }
    assert(w == report_width(cs, fields@));
    let ghost rows = report_rows(cs, *settings);
    let mut r: Vec<String> = Vec::new();
    let mut k: usize = 0;
    while k < counters.len()
        invariant
            k <= cs.len(),
            cs == counters@,
            fields@ == settings.active_fields(),
            w == report_width(cs, fields@),
            rows == report_rows(cs, *settings),
            r@.len() == k,
            forall|j: int| 0 <= j < k ==> r@[j]@ == rows[j],
        decreases cs.len() - k,
    {
        let row = render_row(&counters[k], &fields, w);
        r.push(row);
        k = k + 1;
    }
    if counters.len() > 1 {
        let row = render_counts(&total, &fields, w);
        r.push(row);
    }
    r
}

} // verus!

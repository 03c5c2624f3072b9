use chrono::{Datelike, Timelike};
use vstd::prelude::*;

use crate::text::{
    is_digit, lemma_lex_append, lemma_lex_prefix, lemma_zero_padded_order, lemma_zero_padded_shape,
    lemma_zero_padded_value, lex_less, pow10, push_zero_padded, zero_padded,
};

verus! {

/// A local date and time to the second, as calendar fields.
pub struct LocalStamp {
    pub year: i32,
    pub month: u32,
    pub day: u32,
    pub hour: u32,
    pub minute: u32,
    pub second: u32,
}

impl LocalStamp {
    /// Every field lies in its calendar range.
    pub open spec fn wf(&self) -> bool {
        &&& 1 <= self.month <= 12
        &&& 1 <= self.day <= 31
        &&& self.hour < 24
        &&& self.minute < 60
        &&& self.second < 60
    }

    /// The year has four digits.
    pub open spec fn in_common_era(&self) -> bool {
        0 <= self.year <= 9999
    }
}

/// Relies on `chrono::Local::now` and the `Datelike` / `Timelike` getters of the
/// value it returns: the current local time, with month in 1..=12, day in 1..=31,
/// hour below 24, minute and second below 60.
#[verifier::external_body]
fn local_now() -> (r: LocalStamp)
    ensures
        r.wf(),
{
    let now = chrono::Local::now();
    LocalStamp {
        year: now.year(),
        month: now.month(),
        day: now.day(),
        hour: now.hour(),
        minute: now.minute(),
        second: now.second(),
    }
}

pub open spec fn doc_id_prefix() -> Seq<char> {
    seq!['c', 'l', 'i', '_', 'p', 'u', 't', '_']
}

/// The year as four digits, with a sign in front outside 0..=9999.
pub open spec fn year_text(y: int) -> Seq<char> {
    if 0 <= y <= 9999 {
        zero_padded(y as nat, 4)
    } else if y < 0 {
        seq!['-'] + zero_padded((-y) as nat, 4)
    } else {
        seq!['+'] + zero_padded(y as nat, 4)
    }
}

/// `YYYYMMDD_HHMMSS`.
pub open spec fn stamp_text(t: LocalStamp) -> Seq<char> {
    year_text(t.year as int) + zero_padded(t.month as nat, 2) + zero_padded(t.day as nat, 2) + seq!['_']
        + zero_padded(t.hour as nat, 2) + zero_padded(t.minute as nat, 2) + zero_padded(t.second as nat, 2)
}

/// The document id generated at time `t`.
pub open spec fn doc_id_text(t: LocalStamp) -> Seq<char> {
    doc_id_prefix() + stamp_text(t)
}

/// `cli_put_` followed by eight digits, `_` and six digits.
pub open spec fn has_doc_id_shape(s: Seq<char>) -> bool {
    &&& s.len() == 23
    &&& s.subrange(0, 8) == doc_id_prefix()
    &&& forall|i: int| 8 <= i < 16 ==> is_digit(#[trigger] s[i])
    &&& s[16] == '_'
    &&& forall|i: int| 17 <= i < 23 ==> is_digit(#[trigger] s[i])
}

/// The document id for time `stamp`: `cli_put_YYYYMMDD_HHMMSS`.
pub fn doc_id_for(stamp: &LocalStamp) -> (r: String)
    ensures
        r@ == doc_id_text(*stamp),
{
    let mut s = String::from_str("cli_put_");
    proof {
        reveal_strlit("cli_put_");
        reveal_strlit("-");
        reveal_strlit("+");
        reveal_strlit("_");
        assert(s@ =~= doc_id_prefix());
    }
    let ghost start = s@;
    let y = stamp.year;
    if 0 <= y && y <= 9999 {
        push_zero_padded(&mut s, y as u64, 4);
    } else if y < 0 {
        s.append("-");
        push_zero_padded(&mut s, (-(y as i64)) as u64, 4);
    } else {
        s.append("+");
        push_zero_padded(&mut s, y as u64, 4);
    }
    proof {
        assert(s@ =~= start + year_text(y as int));
    }
    push_zero_padded(&mut s, stamp.month as u64, 2);
    push_zero_padded(&mut s, stamp.day as u64, 2);
    s.append("_");
    push_zero_padded(&mut s, stamp.hour as u64, 2);
    push_zero_padded(&mut s, stamp.minute as u64, 2);
    push_zero_padded(&mut s, stamp.second as u64, 2);
    proof {
        assert(s@ =~= doc_id_text(*stamp));
    }
    s
}

/// A document id made from the local time now.
pub fn generate_doc_id() -> (r: String)
    ensures
        exists|t: LocalStamp| t.wf() && r@ == doc_id_text(t),
{
    let now = local_now();
    let r = doc_id_for(&now);
    assert(now.wf() && r@ == doc_id_text(now));
    r
}

proof fn lemma_stamp_parts(t: LocalStamp)
    requires
        t.wf(),
        t.in_common_era(),
    ensures
        ({
            let s = doc_id_text(t);
            &&& s.len() == 23
            &&& s.subrange(0, 8) == doc_id_prefix()
            &&& s.subrange(8, 12) == zero_padded(t.year as nat, 4)
            &&& s.subrange(12, 14) == zero_padded(t.month as nat, 2)
            &&& s.subrange(14, 16) == zero_padded(t.day as nat, 2)
            &&& s[16] == '_'
            &&& s.subrange(17, 19) == zero_padded(t.hour as nat, 2)
            &&& s.subrange(19, 21) == zero_padded(t.minute as nat, 2)
            &&& s.subrange(21, 23) == zero_padded(t.second as nat, 2)
        }),
{
    reveal_with_fuel(pow10, 5);
    lemma_zero_padded_shape(t.year as nat, 4);
    lemma_zero_padded_shape(t.month as nat, 2);
    lemma_zero_padded_shape(t.day as nat, 2);
    lemma_zero_padded_shape(t.hour as nat, 2);
    lemma_zero_padded_shape(t.minute as nat, 2);
    lemma_zero_padded_shape(t.second as nat, 2);
    let s = doc_id_text(t);
    assert(s.subrange(0, 8) =~= doc_id_prefix());
    assert(s.subrange(8, 12) =~= zero_padded(t.year as nat, 4));
    assert(s.subrange(12, 14) =~= zero_padded(t.month as nat, 2));
    assert(s.subrange(14, 16) =~= zero_padded(t.day as nat, 2));
    assert(s.subrange(17, 19) =~= zero_padded(t.hour as nat, 2));
    assert(s.subrange(19, 21) =~= zero_padded(t.minute as nat, 2));
    assert(s.subrange(21, 23) =~= zero_padded(t.second as nat, 2));
}

/// A generated document id is `cli_put_` followed by eight digits, `_` and six
/// digits, for every time whose year has four digits.
pub proof fn lemma_doc_id_shape(t: LocalStamp)
    requires
        t.wf(),
        t.in_common_era(),
    ensures
        has_doc_id_shape(doc_id_text(t)),
{
    reveal_with_fuel(pow10, 5);
    lemma_stamp_parts(t);
    lemma_zero_padded_shape(t.year as nat, 4);
    lemma_zero_padded_shape(t.month as nat, 2);
    lemma_zero_padded_shape(t.day as nat, 2);
    lemma_zero_padded_shape(t.hour as nat, 2);
    lemma_zero_padded_shape(t.minute as nat, 2);
    lemma_zero_padded_shape(t.second as nat, 2);
    let s = doc_id_text(t);
    assert forall|i: int| 8 <= i < 16 implies is_digit(#[trigger] s[i]) by {
        if i < 12 {
            assert(s[i] == s.subrange(8, 12)[i - 8]);
        } else if i < 14 {
            assert(s[i] == s.subrange(12, 14)[i - 12]);
        } else {
            assert(s[i] == s.subrange(14, 16)[i - 14]);
        }
    }
    assert forall|i: int| 17 <= i < 23 implies is_digit(#[trigger] s[i]) by {
        if i < 19 {
            assert(s[i] == s.subrange(17, 19)[i - 17]);
        } else if i < 21 {
            assert(s[i] == s.subrange(19, 21)[i - 19]);
        } else {
            assert(s[i] == s.subrange(21, 23)[i - 21]);
        }
    }
}

/// Document ids generated at two different times (to the second) differ, for
/// times whose year has four digits.
pub proof fn lemma_doc_id_distinct(a: LocalStamp, b: LocalStamp)
    requires
        a.wf(),
        b.wf(),
        a.in_common_era(),
        b.in_common_era(),
        a != b,
    ensures
        doc_id_text(a) != doc_id_text(b),
{
    if doc_id_text(a) == doc_id_text(b) {
        lemma_stamp_parts(a);
        lemma_stamp_parts(b);
        lemma_zero_padded_value(a.year as nat, 4);
        lemma_zero_padded_value(b.year as nat, 4);
        lemma_zero_padded_value(a.month as nat, 2);
        lemma_zero_padded_value(b.month as nat, 2);
        lemma_zero_padded_value(a.day as nat, 2);
        lemma_zero_padded_value(b.day as nat, 2);
        lemma_zero_padded_value(a.hour as nat, 2);
        lemma_zero_padded_value(b.hour as nat, 2);
        lemma_zero_padded_value(a.minute as nat, 2);
        lemma_zero_padded_value(b.minute as nat, 2);
        lemma_zero_padded_value(a.second as nat, 2);
        lemma_zero_padded_value(b.second as nat, 2);
        assert(a.year == b.year);
        assert(a.month == b.month);
        assert(a.day == b.day);
        assert(a.hour == b.hour);
        assert(a.minute == b.minute);
        assert(a.second == b.second);
    }
}

/// `a` is an earlier time than `b`, to the second.
pub open spec fn is_earlier(a: LocalStamp, b: LocalStamp) -> bool {
    ||| a.year < b.year
    ||| a.year == b.year && a.month < b.month
    ||| a.year == b.year && a.month == b.month && a.day < b.day
    ||| a.year == b.year && a.month == b.month && a.day == b.day && a.hour < b.hour
    ||| a.year == b.year && a.month == b.month && a.day == b.day && a.hour == b.hour && a.minute < b.minute
    ||| a.year == b.year && a.month == b.month && a.day == b.day && a.hour == b.hour && a.minute == b.minute
        && a.second < b.second
}

/// From `(y, m, d, h, mi, s)`, the field at `i` and everything after it.
#[verifier::opaque]
spec fn fields_from(t: LocalStamp, i: int) -> Seq<char>
    decreases 6 - i,
{
    if i >= 6 {
        Seq::empty()
    } else {
        field(t, i) + sep(i) + fields_from(t, i + 1)
    }
}

#[verifier::opaque]
spec fn field(t: LocalStamp, i: int) -> Seq<char> {
    if i == 0 {
        zero_padded(t.year as nat, 4)
    } else if i == 1 {
        zero_padded(t.month as nat, 2)
    } else if i == 2 {
        zero_padded(t.day as nat, 2)
    } else if i == 3 {
        zero_padded(t.hour as nat, 2)
    } else if i == 4 {
        zero_padded(t.minute as nat, 2)
    } else {
        zero_padded(t.second as nat, 2)
    }
}

spec fn field_value(t: LocalStamp, i: int) -> nat {
    if i == 0 {
        t.year as nat
    } else if i == 1 {
        t.month as nat
    } else if i == 2 {
        t.day as nat
    } else if i == 3 {
        t.hour as nat
    } else if i == 4 {
        t.minute as nat
    } else {
        t.second as nat
    }
}

spec fn field_width(i: int) -> nat {
    if i == 0 {
        4
    } else {
        2
    }
}

/// When `a` and `b` agree on the fields before `i` and `a` is smaller at `i`,
/// the text from `i` on comes first for `a`.
proof fn lemma_fields_from_order(a: LocalStamp, b: LocalStamp, i: int)
    requires
        0 <= i < 6,
        a.wf(),
        b.wf(),
        a.in_common_era(),
        b.in_common_era(),
        forall|j: int| 0 <= j < 6 ==> #[trigger] field_value(a, j) < pow10(field_width(j)),
        forall|j: int| 0 <= j < 6 ==> #[trigger] field_value(b, j) < pow10(field_width(j)),
        field_value(a, i) < field_value(b, i),
    ensures
        lex_less(fields_from(a, i), fields_from(b, i)),
{
    lemma_zero_padded_order(field_value(a, i), field_value(b, i), field_width(i));
    assert(field(a, i) == zero_padded(field_value(a, i), field_width(i))) by {
        reveal(field);
    }
    assert(field(b, i) == zero_padded(field_value(b, i), field_width(i))) by {
        reveal(field);
    }
    lemma_lex_append(field(a, i), field(b, i), sep(i) + fields_from(a, i + 1), sep(i) + fields_from(b, i + 1));
    lemma_fields_step(a, i);
    lemma_fields_step(b, i);
    assert(fields_from(a, i) =~= field(a, i) + (sep(i) + fields_from(a, i + 1)));
    assert(fields_from(b, i) =~= field(b, i) + (sep(i) + fields_from(b, i + 1)));
}

spec fn sep(i: int) -> Seq<char> {
    if i == 2 {
        seq!['_']
    } else {
        Seq::empty()
    }
}

/// The text of the fields before `i`.
spec fn fields_before(t: LocalStamp, i: int) -> Seq<char>
    decreases i,
{
    if i <= 0 {
        Seq::empty()
    } else {
        fields_before(t, i - 1) + field(t, i - 1) + sep(i - 1)
    }
}

proof fn lemma_fields_split(t: LocalStamp, i: int)
    requires
        0 <= i <= 6,
    ensures
        fields_from(t, 0) == fields_before(t, i) + fields_from(t, i),
    decreases i,
{
    if i > 0 {
        lemma_fields_split(t, i - 1);
        lemma_fields_step(t, i - 1);
        assert(fields_before(t, i - 1) + fields_from(t, i - 1) =~= fields_before(t, i) + fields_from(t, i));
    } else {
        assert(fields_from(t, 0) =~= Seq::<char>::empty() + fields_from(t, 0));
    }
}

proof fn lemma_fields_before_agree(a: LocalStamp, b: LocalStamp, i: int)
    requires
        0 <= i <= 6,
        forall|j: int| 0 <= j < i ==> field_value(a, j) == field_value(b, j),
    ensures
        fields_before(a, i) == fields_before(b, i),
    decreases i,
{
    if i > 0 {
        lemma_fields_before_agree(a, b, i - 1);
        assert(field_value(a, i - 1) == field_value(b, i - 1));
        assert(field(a, i - 1) == field(b, i - 1)) by {
            reveal(field);
        }
    }
}

proof fn lemma_field_bounds(t: LocalStamp)
    requires
        t.wf(),
        t.in_common_era(),
    ensures
        forall|j: int| 0 <= j < 6 ==> #[trigger] field_value(t, j) < pow10(field_width(j)),
{
    reveal_with_fuel(pow10, 5);
}

proof fn lemma_fields_step(t: LocalStamp, i: int)
    requires
        0 <= i < 6,
    ensures
        fields_from(t, i) == field(t, i) + sep(i) + fields_from(t, i + 1),
{
    reveal(fields_from);
}

proof fn lemma_stamp_fields(t: LocalStamp)
    requires
        t.in_common_era(),
    ensures
        stamp_text(t) == fields_from(t, 0),
{
    let f0 = field(t, 0);
    let f1 = field(t, 1);
    let f2 = field(t, 2);
    let f3 = field(t, 3);
    let f4 = field(t, 4);
    let f5 = field(t, 5);
    let u = seq!['_'];
    assert(stamp_text(t) == f0 + f1 + f2 + u + f3 + f4 + f5) by {
        reveal(field);
    }
    lemma_fields_step(t, 5);
    lemma_fields_step(t, 4);
    lemma_fields_step(t, 3);
    lemma_fields_step(t, 2);
    lemma_fields_step(t, 1);
    lemma_fields_step(t, 0);
    assert(fields_from(t, 6) == Seq::<char>::empty()) by {
        reveal(fields_from);
    }
    assert(sep(5) == Seq::<char>::empty() && sep(4) == Seq::<char>::empty() && sep(3) == Seq::<char>::empty());
    assert(sep(1) == Seq::<char>::empty() && sep(0) == Seq::<char>::empty() && sep(2) == u);
    let r5 = fields_from(t, 5);
    let r4 = fields_from(t, 4);
    let r3 = fields_from(t, 3);
    let r2 = fields_from(t, 2);
    let r1 = fields_from(t, 1);
    let r0 = fields_from(t, 0);
    assert(r5 =~= f5);
    assert(r4 =~= f4 + f5);
    assert(r3 =~= f3 + f4 + f5);
    assert(r2 =~= f2 + u + (f3 + f4 + f5));
    assert(r1 =~= f1 + (f2 + u + (f3 + f4 + f5)));
    assert(r0 =~= f0 + (f1 + (f2 + u + (f3 + f4 + f5))));
    assert(f0 + (f1 + (f2 + u + (f3 + f4 + f5))) =~= f0 + f1 + f2 + u + f3 + f4 + f5);
}

/// A document id generated at an earlier time comes first in dictionary
/// order, for times whose year has four digits.
pub proof fn lemma_doc_id_order(a: LocalStamp, b: LocalStamp)
    requires
        a.wf(),
        b.wf(),
        a.in_common_era(),
        b.in_common_era(),
        is_earlier(a, b),
    ensures
        lex_less(doc_id_text(a), doc_id_text(b)),
{
    let i: int = if a.year != b.year {
        0
    } else if a.month != b.month {
        1
    } else if a.day != b.day {
        2
    } else if a.hour != b.hour {
        3
    } else if a.minute != b.minute {
        4
    } else {
        5
    };
    assert forall|j: int| 0 <= j < i implies field_value(a, j) == field_value(b, j) by {}
    lemma_field_bounds(a);
    lemma_field_bounds(b);
    lemma_fields_from_order(a, b, i);
    lemma_fields_split(a, i);
    lemma_fields_split(b, i);
    lemma_fields_before_agree(a, b, i);
    lemma_stamp_fields(a);
    lemma_stamp_fields(b);
    let pre = doc_id_prefix() + fields_before(a, i);
    lemma_lex_prefix(pre, fields_from(a, i), fields_from(b, i));
    assert(doc_id_text(a) =~= pre + fields_from(a, i));
    assert(doc_id_text(b) =~= pre + fields_from(b, i));
}

} // verus!

//! Rows of fields for the formats that write generated values as lines.

use vstd::prelude::*;
use crate::text::{push_chars, string_of};
use crate::value::{DataValue, display_text};

verus! {

/// The texts of `fields` with `sep` between each two.
pub open spec fn joined(fields: Seq<Seq<char>>, sep: char) -> Seq<char>
    decreases fields.len(),
{
    if fields.len() == 0 {
        Seq::empty()
    } else if fields.len() == 1 {
        fields[0]
    } else {
        joined(fields.drop_last(), sep).push(sep) + fields.last()
    }
}

/// The number of times `c` occurs in `s`.
pub open spec fn occurrences(s: Seq<char>, c: char) -> nat
    decreases s.len(),
{
    if s.len() == 0 {
        0
    } else {
        occurrences(s.drop_last(), c) + if s.last() == c {
            1nat
        } else {
            0nat
        }
    }
}

/// The occurrences in two texts put together add up.
proof fn lemma_occurrences_concat(a: Seq<char>, b: Seq<char>, c: char)
    ensures
        occurrences(a + b, c) == occurrences(a, c) + occurrences(b, c),
    decreases b.len(),
{
    if b.len() == 0 {
        assert(a + b =~= a);
    } else {
        assert((a + b).drop_last() =~= a + b.drop_last());
        lemma_occurrences_concat(a, b.drop_last(), c);
    }
}

/// Adding a field to a row of at least one field adds the separator and then
/// the field, whatever the field holds, an empty one included: no field is
/// dropped and none moves.
pub proof fn law_joined_appends_field(fields: Seq<Seq<char>>, field: Seq<char>, sep: char)
    requires
        fields.len() > 0,
    ensures
        joined(fields.push(field), sep) == joined(fields, sep).push(sep) + field,
{
    assert(fields.push(field).drop_last() =~= fields);
}

/// A row holds the separator once between each two fields: when no field
/// holds the separator, a row of `n` fields holds it `n - 1` times, so
/// splitting it at the separator gives back as many fields.
pub proof fn law_joined_separator_count(fields: Seq<Seq<char>>, sep: char)
    requires
        fields.len() > 0,
        forall|i: int| 0 <= i < fields.len() ==> occurrences(#[trigger] fields[i], sep) == 0,
    ensures
        occurrences(joined(fields, sep), sep) == fields.len() - 1,
    decreases fields.len(),
{
    if fields.len() > 1 {
        let init = fields.drop_last();
        law_joined_separator_count(init, sep);
        lemma_occurrences_concat(joined(init, sep).push(sep), fields.last(), sep);
        assert(joined(init, sep).push(sep).drop_last() =~= joined(init, sep));
        assert(occurrences(fields.last(), sep) == 0);
    } else {
        assert(occurrences(fields[0], sep) == 0);
    }
}

/// The lengths of `fields` added up.
pub open spec fn total_length(fields: Seq<Seq<char>>) -> int
    decreases fields.len(),
{
    if fields.len() == 0 {
        0
    } else {
        total_length(fields.drop_last()) + fields.last().len()
    }
}

/// A row is as long as its fields together, plus one separator between
/// each two.
pub proof fn law_joined_length(fields: Seq<Seq<char>>, sep: char)
    requires
        fields.len() > 0,
    ensures
        joined(fields, sep).len() + 1 == fields.len() + total_length(fields),
    decreases fields.len(),
{
    if fields.len() > 1 {
        law_joined_length(fields.drop_last(), sep);
    } else {
        assert(fields.drop_last() =~= Seq::<Seq<char>>::empty());
        assert(total_length(fields.drop_last()) == 0);
        assert(fields.last() == fields[0]);
    }
}

/// The views of strings.
pub open spec fn texts_of(fields: Seq<String>) -> Seq<Seq<char>> {
    fields.map_values(|s: String| s@)
}

/// A row: the fields with `sep` between each two.
pub fn join_fields(fields: &Vec<String>, sep: char) -> (r: String)
    ensures
        r@ == joined(texts_of(fields@), sep),
{
    let mut out: Vec<char> = Vec::new();
    let mut i: usize = 0;
    while i < fields.len()
        invariant
            i <= fields@.len(),
            out@ == joined(texts_of(fields@).take(i as int), sep),
        decreases fields@.len() - i,
    {
        let ghost before = out@;
        if i > 0 {
            out.push(sep);
        }
        push_chars(&mut out, fields[i].as_str());
        proof {
            let t = texts_of(fields@);
            assert(t.take(i + 1).drop_last() =~= t.take(i as int));
            if i == 0 {
                assert(out@ =~= t.take(1)[0]);
            } else {
                assert(out@ =~= joined(t.take(i as int), sep).push(sep) + t[i as int]);
            }
        }
        i = i + 1;
    }
    assert(texts_of(fields@).take(i as int) =~= texts_of(fields@));
    string_of(out.as_slice())
}

/// The display texts of `values`, in order.
pub fn display_fields(values: &Vec<DataValue>) -> (r: Vec<String>)
    ensures
        r@.len() == values@.len(),
        forall|i: int| 0 <= i < values@.len() ==> (#[trigger] r@[i])@ == display_text(values@[i]),
{
    let mut out: Vec<String> = Vec::new();
    let mut i: usize = 0;
    while i < values.len()
        invariant
            i <= values@.len(),
            out@.len() == i,
            forall|j: int| 0 <= j < i ==> (#[trigger] out@[j])@ == display_text(values@[j]),
        decreases values@.len() - i,
    {
        out.push(values[i].to_display_string());
        i = i + 1;
    }
    out
}

} // verus!

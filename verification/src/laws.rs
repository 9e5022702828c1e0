//! What holds of the steps of a conversion taken together.

use vstd::prelude::*;

use crate::convert::{
    accepts, all_numbers, axisless_angle_axis, fields_of, first_malformed, identity_angle_axis,
    identity_matrix, shown, source_of, texts, zero_filled, Derived, RotationRepr, RANK_TOLERANCE,
};
use crate::number_text::{all_digits, has_point_at, is_digit, number_text, without_sign};
use crate::state::{default_view, matrix_index, RotationView};

verus! {

/// A digit, a point and one or more digits denote a number.
proof fn lemma_fixed_point(t: Seq<char>)
    requires
        t.len() >= 3,
        t[1] == '.',
        forall|i: int| 0 <= i < t.len() && i != 1 ==> is_digit(#[trigger] t[i]),
    ensures
        number_text(t),
{
    assert(without_sign(t) == t);
    assert(all_digits(t.subrange(0, 1)));
    assert(all_digits(t.subrange(2, t.len() as int)));
    assert(has_point_at(t, 1));
}

/// The texts that this library writes of its own accord denote numbers.
pub proof fn lemma_own_texts_are_numbers()
    ensures
        number_text("0.0"@),
        number_text("1.0"@),
        number_text("0.0000"@),
        number_text("1.0000"@),
        number_text(RANK_TOLERANCE@),
{
    reveal_strlit("0.0");
    reveal_strlit("1.0");
    reveal_strlit("0.0000");
    reveal_strlit("1.0000");
    reveal_strlit("0.0001");
    lemma_fixed_point("0.0"@);
    lemma_fixed_point("1.0"@);
    lemma_fixed_point("0.0000"@);
    lemma_fixed_point("1.0000"@);
    lemma_fixed_point("0.0001"@);
}

/// Among fields of which one denotes no number, one is the first to do so.
proof fn lemma_least_malformed(fields: Seq<Seq<char>>, index: int) -> (first: int)
    requires
        0 <= index < fields.len(),
        !number_text(fields[index]),
    ensures
        first_malformed(fields, first),
        first <= index,
    decreases index,
{
    if all_numbers(fields.take(index)) {
        index
    } else {
        let j = choose|j: int| 0 <= j < index && !number_text(#[trigger] fields.take(index)[j]);
        assert(fields.take(index)[j] == fields[j]);
        lemma_least_malformed(fields, j)
    }
}

/// A quaternion, or an angle and axis, with a field that denotes no number
/// is refused as the start of a conversion, and the field that the refusal
/// names is the first such field.
pub proof fn lemma_malformed_field_is_refused(view: RotationView, repr: RotationRepr, index: int)
    requires
        !(repr is RotationMatrix),
        0 <= index < fields_of(view, repr).len(),
        !number_text(fields_of(view, repr)[index]),
    ensures
        !accepts(view, repr),
        exists|first: int| first <= index && #[trigger] first_malformed(fields_of(view, repr), first),
{
    let first = lemma_least_malformed(fields_of(view, repr), index);
    assert(first_malformed(fields_of(view, repr), first));
}

/// Only one field is the first that denotes no number: a refusal names
/// one field, and always the same.
pub proof fn lemma_first_malformed_is_unique(fields: Seq<Seq<char>>, i: int, j: int)
    requires
        first_malformed(fields, i),
        first_malformed(fields, j),
    ensures
        i == j,
{
    if i < j {
        assert(fields.take(j)[i] == fields[i]);
    }
    if j < i {
        assert(fields.take(i)[j] == fields[j]);
    }
}

/// A representation is either accepted as the start of a conversion or
/// has a first field that denotes no number, never both.
pub proof fn lemma_accepted_or_malformed(view: RotationView, repr: RotationRepr)
    ensures
        accepts(view, repr) <==> !exists|first: int| #[trigger]
            first_malformed(fields_of(view, repr), first) && !(repr is RotationMatrix),
{
    let fields = fields_of(view, repr);
    if !accepts(view, repr) {
        let index = choose|index: int| 0 <= index < fields.len() && !number_text(#[trigger] fields[index]);
        let first = lemma_least_malformed(fields, index);
        assert(first_malformed(fields, first) && !(repr is RotationMatrix));
    }
}

/// Every text that a conversion starts from denotes a number, and there
/// are as many of them as the representation has fields.
pub proof fn lemma_source_holds_numbers(view: RotationView, repr: RotationRepr)
    requires
        accepts(view, repr),
    ensures
        all_numbers(source_of(view, repr).fields()),
        source_of(view, repr).fields().len() == fields_of(view, repr).len(),
{
    lemma_own_texts_are_numbers();
}

/// What takes the place of an input that denotes no rotation denotes
/// numbers throughout.
pub proof fn lemma_fallbacks_hold_numbers()
    ensures
        all_numbers(identity_angle_axis()),
        all_numbers(identity_matrix()),
        all_numbers(axisless_angle_axis()),
{
    lemma_own_texts_are_numbers();
}

/// The identity matrix holds one in each entry of the diagonal and zero
/// in every other entry.
pub proof fn lemma_identity_matrix_is_diagonal(row: int, col: int)
    requires
        0 <= row < 3,
        0 <= col < 3,
    ensures
        identity_matrix()[matrix_index(row, col)] == if row == col {
            "1.0"@
        } else {
            "0.0"@
        },
{
}

/// The matrix is laid out without gap or overlap: each entry has a place
/// among the nine, no two entries share one, and row and column are found
/// again from the place.
pub proof fn lemma_matrix_layout(row: int, col: int, other_row: int, other_col: int)
    requires
        0 <= row < 3,
        0 <= col < 3,
        0 <= other_row < 3,
        0 <= other_col < 3,
    ensures
        0 <= matrix_index(row, col) < 9,
        matrix_index(row, col) % 3 == row,
        matrix_index(row, col) / 3 == col,
        matrix_index(row, col) == matrix_index(other_row, other_col) ==> row == other_row && col
            == other_col,
{
}

/// Every place of the matrix holds the entry of one row and column.
pub proof fn lemma_matrix_layout_is_onto(index: int)
    requires
        0 <= index < 9,
    ensures
        0 <= index % 3 < 3,
        0 <= index / 3 < 3,
        matrix_index(index % 3, index / 3) == index,
{
}

/// A new record shows the identity rotation: the fields that take the
/// place of a degenerate input are those of a new record.  Each of its
/// representations is accepted as the start of a conversion.
pub proof fn lemma_default_is_identity(repr: RotationRepr)
    ensures
        default_view().well_formed(),
        default_view().angleaxis == identity_angle_axis(),
        default_view().rot_matrix == identity_matrix(),
        !default_view().editted,
        accepts(default_view(), repr),
        source_of(default_view(), repr).fields() == fields_of(default_view(), repr),
{
    lemma_own_texts_are_numbers();
    assert(default_view().rot_matrix =~= identity_matrix());
    assert(zero_filled(default_view().rot_matrix) =~= default_view().rot_matrix);
}

/// A record that was written from texts that denote numbers is accepted
/// as the start of a conversion under each representation, and that
/// conversion starts from the very texts that were written.
pub proof fn lemma_shown_is_accepted(view: RotationView, derived: Derived, repr: RotationRepr)
    requires
        all_numbers(texts(derived.quat)),
        derived.angleaxis matches Some(fields) ==> all_numbers(texts(fields)),
        all_numbers(texts(derived.rot_matrix)),
    ensures
        accepts(shown(view, derived), repr),
        source_of(shown(view, derived), repr).fields() == fields_of(shown(view, derived), repr),
        !shown(view, derived).editted,
{
    lemma_own_texts_are_numbers();
    let after = shown(view, derived);
    assert(zero_filled(after.rot_matrix) =~= after.rot_matrix);
}

/// Writing the same rotation a second time changes nothing.
pub proof fn lemma_shown_twice(view: RotationView, derived: Derived)
    ensures
        shown(shown(view, derived), derived) == shown(view, derived),
{
}

/// Writing a rotation keeps the labels and the number of fields.
pub proof fn lemma_shown_keeps_shape(view: RotationView, derived: Derived)
    requires
        view.well_formed(),
    ensures
        shown(view, derived).well_formed(),
        shown(view, derived).quat_labels == view.quat_labels,
        shown(view, derived).angleaxis_labels == view.angleaxis_labels,
{
}

} // verus!

//! One conversion, in the steps that can be decided on text.
//!
//! A conversion starts from the representation that was edited last.
//! [`TemplateApp::source`] reads and checks its fields,
//! [`settle_angle_axis`] and [`settle_matrix`] replace an input that
//! denotes no rotation, and [`TemplateApp::apply`] writes the result back
//! into all three representations.  Between these steps the caller turns
//! texts into numbers, computes the rotation, and turns numbers into texts.

use vstd::prelude::*;

use crate::number_text::{is_number_text, number_text};
use crate::state::{RotationView, TemplateApp};

verus! {

/// One of the three representations of a rotation.
#[derive(Clone, Copy, Debug, PartialEq, Eq, Structural)]
pub enum RotationRepr {
    Quaternion,
    AngleAxis,
    RotationMatrix,
}

/// Why a conversion did not take place.
#[derive(Clone, Copy, Debug, PartialEq, Eq, Structural)]
pub enum ConversionError {
    /// The field `index` of the representation `repr` holds no number.
    ParseError { repr: RotationRepr, index: usize },
}

/// The checked texts that a conversion starts from.
#[derive(Debug)]
pub enum Source {
    /// w, x, y, z.
    Quaternion([String; 4]),
    /// The angle in radians, then the axis: x, y, z.
    AngleAxis([String; 4]),
    /// The matrix, column by column.
    RotationMatrix([String; 9]),
}

/// A rotation as the texts to show for it.
#[derive(Debug)]
pub struct Derived {
    /// w, x, y, z.
    pub quat: [String; 4],
    /// The angle in radians, then the axis: x, y, z.  `None` for a
    /// rotation that turns nothing, which has no axis.
    pub angleaxis: Option<[String; 4]>,
    /// The matrix, column by column.
    pub rot_matrix: [String; 9],
}

/// The texts that an array holds.
pub open spec fn texts<const N: usize>(a: [String; N]) -> Seq<Seq<char>> {
    Seq::new(N as nat, |i: int| a[i]@)
}

/// What a [`Source`] holds, as sequences of texts.
pub enum SourceView {
    Quaternion(Seq<Seq<char>>),
    AngleAxis(Seq<Seq<char>>),
    RotationMatrix(Seq<Seq<char>>),
}

impl SourceView {
    /// The texts, whatever they represent.
    pub open spec fn fields(self) -> Seq<Seq<char>> {
        match self {
            SourceView::Quaternion(fields) => fields,
            SourceView::AngleAxis(fields) => fields,
            SourceView::RotationMatrix(fields) => fields,
        }
    }
}

impl View for Source {
    type V = SourceView;

    open spec fn view(&self) -> SourceView {
        match *self {
            Source::Quaternion(a) => SourceView::Quaternion(texts(a)),
            Source::AngleAxis(a) => SourceView::AngleAxis(texts(a)),
            Source::RotationMatrix(a) => SourceView::RotationMatrix(texts(a)),
        }
    }
}

/// Every text denotes a number.
pub open spec fn all_numbers(fields: Seq<Seq<char>>) -> bool {
    forall|i: int| 0 <= i < fields.len() ==> number_text(#[trigger] fields[i])
}

/// `index` is the first field that denotes no number.
pub open spec fn first_malformed(fields: Seq<Seq<char>>, index: int) -> bool {
    &&& 0 <= index < fields.len()
    &&& !number_text(fields[index])
    &&& all_numbers(fields.take(index))
}

/// The fields, with zero in place of each that denotes no number.
pub open spec fn zero_filled(fields: Seq<Seq<char>>) -> Seq<Seq<char>> {
    Seq::new(
        fields.len(),
        |i: int|
            if number_text(fields[i]) {
                fields[i]
            } else {
                "0.0"@
            },
    )
}

/// The angle-axis fields of a rotation that turns nothing: no angle,
/// about the first axis.
pub open spec fn identity_angle_axis() -> Seq<Seq<char>> {
    seq!["0.0"@, "1.0"@, "0.0"@, "0.0"@]
}

/// The entries of the identity matrix, column by column.
pub open spec fn identity_matrix() -> Seq<Seq<char>> {
    Seq::new(
        9,
        |i: int|
            if i % 3 == i / 3 {
                "1.0"@
            } else {
                "0.0"@
            },
    )
}

/// What is shown as angle and axis of a rotation that has no axis.
pub open spec fn axisless_angle_axis() -> Seq<Seq<char>> {
    seq!["0.0000"@, "1.0000"@, "0.0000"@, "0.0000"@]
}

/// A matrix of lower rank is no rotation.
pub const FULL_RANK: usize = 3;

/// Where the rank of a matrix is taken, a singular value below this
/// number counts as zero.
pub const RANK_TOLERANCE: &'static str = "0.0001";

/// Whether the user committed an edit: the field gave up the focus, and
/// did so because Enter was pressed.  A committed edit starts a conversion
/// from the representation that the field belongs to.
pub fn is_committed(lost_focus: bool, enter_pressed: bool) -> (r: bool)
    ensures
        r == (lost_focus && enter_pressed),
{
    lost_focus && enter_pressed
}

/// The fields of one representation.
pub open spec fn fields_of(view: RotationView, repr: RotationRepr) -> Seq<Seq<char>> {
    match repr {
        RotationRepr::Quaternion => view.quat,
        RotationRepr::AngleAxis => view.angleaxis,
        RotationRepr::RotationMatrix => view.rot_matrix,
    }
}

/// Whether a conversion can start from the given representation: a
/// quaternion or an angle and axis must hold numbers throughout, a matrix
/// is taken as it is.
pub open spec fn accepts(view: RotationView, repr: RotationRepr) -> bool {
    repr is RotationMatrix || all_numbers(fields_of(view, repr))
}

/// What a conversion from the given representation starts from.
pub open spec fn source_of(view: RotationView, repr: RotationRepr) -> SourceView {
    match repr {
        RotationRepr::Quaternion => SourceView::Quaternion(view.quat),
        RotationRepr::AngleAxis => SourceView::AngleAxis(view.angleaxis),
        RotationRepr::RotationMatrix => SourceView::RotationMatrix(zero_filled(view.rot_matrix)),
    }
}

/// The text `text`, or zero where it denotes no number.
fn number_or_zero(text: &str) -> (r: String)
    ensures
        r@ == if number_text(text@) {
            text@
        } else {
            "0.0"@
        },
{
    if is_number_text(text) {
        text.to_owned()
    } else {
        "0.0".to_owned()
    }
}

impl TemplateApp {
    /// The first of the four fields of `repr` that holds no number.
    fn first_malformed_field(&self, repr: RotationRepr) -> (r: Option<usize>)
        requires
            !(repr is RotationMatrix),
        ensures
            match r {
                Some(index) => first_malformed(fields_of(self@, repr), index as int),
                None => all_numbers(fields_of(self@, repr)),
            },
    {
        proof {
            self.lemma_well_formed();
        }
        let ghost fields = fields_of(self@, repr);
        let mut i: usize = 0;
        while i < 4
            invariant
                i <= 4,
                fields == fields_of(self@, repr),
                fields.len() == 4,
                !(repr is RotationMatrix),
                all_numbers(fields.take(i as int)),
            decreases 4 - i,
        {
            let text = match repr {
                RotationRepr::Quaternion => self.quat_text(i),
                _ => self.angleaxis_text(i),
            };
            if !is_number_text(text) {
                return Some(i);
            }
            assert forall|j: int| 0 <= j < i + 1 implies number_text(
                #[trigger] fields.take(i + 1)[j],
            ) by {
                if j < i {
                    assert(fields.take(i as int)[j] == fields[j]);
                }
            }
            i += 1;
        }
        assert(fields.take(4) =~= fields);
        None
    }

    /// The label of the field that a refusal names, if the record has
    /// such a field.
    pub fn offending_label(&self, error: ConversionError) -> (r: Option<&str>)
        ensures
            r matches Some(label) ==> match error {
                ConversionError::ParseError { repr: RotationRepr::Quaternion, index } => index < 4
                    && label@ == self@.quat_labels[index as int],
                ConversionError::ParseError { repr: RotationRepr::AngleAxis, index } => index < 4
                    && label@ == self@.angleaxis_labels[index as int],
                ConversionError::ParseError { repr: RotationRepr::RotationMatrix, .. } => false,
            },
            r is None <==> match error {
                ConversionError::ParseError { repr, index } => repr is RotationMatrix || index >= 4,
            },
    {
        match error {
            ConversionError::ParseError { repr: RotationRepr::Quaternion, index } => {
                if index < 4 {
                    Some(self.quat_label(index))
                } else {
                    None
                }
            },
            ConversionError::ParseError { repr: RotationRepr::AngleAxis, index } => {
                if index < 4 {
                    Some(self.angleaxis_label(index))
                } else {
                    None
                }
            },
            ConversionError::ParseError { repr: RotationRepr::RotationMatrix, .. } => None,
        }
    }

    /// Reads the representation that a conversion starts from.
    ///
    /// A quaternion or an angle and axis is refused where one of its
    /// fields holds no number; the error names the first such field.  A
    /// matrix is never refused: an entry that holds no number counts as
    /// zero.  The record itself is left as it is.
    pub fn source(&self, edited_item: RotationRepr) -> (r: Result<Source, ConversionError>)
        ensures
            match r {
                Ok(source) => accepts(self@, edited_item) && source@ == source_of(
                    self@,
                    edited_item,
                ),
                Err(ConversionError::ParseError { repr, index }) => {
                    &&& !accepts(self@, edited_item)
                    &&& repr == edited_item
                    &&& first_malformed(fields_of(self@, edited_item), index as int)
                },
            },
    {
        proof {
            self.lemma_well_formed();
        }
        match edited_item {
            RotationRepr::Quaternion => {
                match self.first_malformed_field(edited_item) {
                    Some(index) => {
                        assert(!number_text(self@.quat[index as int]));
                        Err(ConversionError::ParseError { repr: edited_item, index })
                    },
                    None => {
                        let a = [
                            self.quat_text(0).to_owned(),
                            self.quat_text(1).to_owned(),
                            self.quat_text(2).to_owned(),
                            self.quat_text(3).to_owned(),
                        ];
                        assert(texts(a) =~= self@.quat);
                        Ok(Source::Quaternion(a))
                    },
                }
            },
            RotationRepr::AngleAxis => {
                match self.first_malformed_field(edited_item) {
                    Some(index) => {
                        assert(!number_text(self@.angleaxis[index as int]));
                        Err(ConversionError::ParseError { repr: edited_item, index })
                    },
                    None => {
                        let a = [
                            self.angleaxis_text(0).to_owned(),
                            self.angleaxis_text(1).to_owned(),
                            self.angleaxis_text(2).to_owned(),
                            self.angleaxis_text(3).to_owned(),
                        ];
                        assert(texts(a) =~= self@.angleaxis);
                        Ok(Source::AngleAxis(a))
                    },
                }
            },
            RotationRepr::RotationMatrix => {
                let a = [
                    number_or_zero(self.matrix_text(0, 0)),
                    number_or_zero(self.matrix_text(1, 0)),
                    number_or_zero(self.matrix_text(2, 0)),
                    number_or_zero(self.matrix_text(0, 1)),
                    number_or_zero(self.matrix_text(1, 1)),
                    number_or_zero(self.matrix_text(2, 1)),
                    number_or_zero(self.matrix_text(0, 2)),
                    number_or_zero(self.matrix_text(1, 2)),
                    number_or_zero(self.matrix_text(2, 2)),
                ];
                assert(texts(a) =~= zero_filled(self@.rot_matrix));
                Ok(Source::RotationMatrix(a))
            },
        }
    }
}

/// The angle and axis to compute with.
///
/// An axis without a direction, one that cannot be brought to length
/// one, turns nothing: the rotation is then the identity, whatever the
/// angle.  `axis_has_direction` is what the caller found of the axis that
/// `fields` denote.
pub fn settle_angle_axis(fields: [String; 4], axis_has_direction: bool) -> (r: [String; 4])
    ensures
        texts(r) == if axis_has_direction {
            texts(fields)
        } else {
            identity_angle_axis()
        },
{
    if axis_has_direction {
        fields
    } else {
        let r = ["0.0".to_owned(), "1.0".to_owned(), "0.0".to_owned(), "0.0".to_owned()];
        assert(texts(r) =~= identity_angle_axis());
        r
    }
}

/// The matrix to compute with.
///
/// A matrix of rank less than three is no rotation: the identity matrix
/// takes its place.  `rank` is what the caller found of the matrix that
/// `entries` denote.
pub fn settle_matrix(entries: [String; 9], rank: usize) -> (r: [String; 9])
    ensures
        texts(r) == if rank < FULL_RANK {
            identity_matrix()
        } else {
            texts(entries)
        },
{
    if rank < FULL_RANK {
        let r = [
            "1.0".to_owned(),
            "0.0".to_owned(),
            "0.0".to_owned(),
            "0.0".to_owned(),
            "1.0".to_owned(),
            "0.0".to_owned(),
            "0.0".to_owned(),
            "0.0".to_owned(),
            "1.0".to_owned(),
        ];
        assert(texts(r) =~= identity_matrix());
        r
    } else {
        entries
    }
}

/// The record after a conversion that gave `derived`: all three
/// representations are written anew, the labels stay, and nothing counts
/// as edited any more.
pub open spec fn shown(view: RotationView, derived: Derived) -> RotationView {
    RotationView {
        quat: texts(derived.quat),
        angleaxis: match derived.angleaxis {
            Some(fields) => texts(fields),
            None => axisless_angle_axis(),
        },
        rot_matrix: texts(derived.rot_matrix),
        editted: false,
        ..view
    }
}

impl TemplateApp {
    /// Ends a conversion: writes the rotation that was computed into all
    /// three representations.
    ///
    /// A rotation without an axis is shown as no angle about the first
    /// axis.
    pub fn apply(&mut self, derived: &Derived)
        ensures
            final(self)@ == shown(old(self)@, *derived),
    {
        match &derived.angleaxis {
            Some(fields) => {
                self.rewrite(&derived.quat, fields, &derived.rot_matrix);
            },
            None => {
                let fields = [
                    "0.0000".to_owned(),
                    "1.0000".to_owned(),
                    "0.0000".to_owned(),
                    "0.0000".to_owned(),
                ];
                assert(texts(fields) =~= axisless_angle_axis());
                self.rewrite(&derived.quat, &fields, &derived.rot_matrix);
            },
        }
    }
}

} // verus!

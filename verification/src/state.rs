//! The record of one rotation in its three textual representations.

use vstd::prelude::*;

verus! {

/// What a [`TemplateApp`] holds, as sequences of texts.
pub struct RotationView {
    /// The labels of the quaternion's fields.
    pub quat_labels: Seq<Seq<char>>,
    /// The quaternion: w, x, y, z.
    pub quat: Seq<Seq<char>>,
    /// The labels of the angle-axis fields.
    pub angleaxis_labels: Seq<Seq<char>>,
    /// The angle in radians, then the axis: x, y, z.
    pub angleaxis: Seq<Seq<char>>,
    /// The matrix, column by column.
    pub rot_matrix: Seq<Seq<char>>,
    /// Whether a field was edited since the representations last agreed.
    pub editted: bool,
}

/// One rotation, held as the texts of its three representations.
///
/// The texts are kept as they were typed.  Between an edit and the next
/// conversion the three representations may disagree.
pub struct TemplateApp {
    quat: [(String, String); 4],
    angleaxis: [(String, String); 4],
    rot_matrix: [String; 9],
    editted: bool,
}

impl View for TemplateApp {
    type V = RotationView;

    closed spec fn view(&self) -> RotationView {
        RotationView {
            quat_labels: Seq::new(4, |i: int| self.quat[i].0@),
            quat: Seq::new(4, |i: int| self.quat[i].1@),
            angleaxis_labels: Seq::new(4, |i: int| self.angleaxis[i].0@),
            angleaxis: Seq::new(4, |i: int| self.angleaxis[i].1@),
            rot_matrix: Seq::new(9, |i: int| self.rot_matrix[i]@),
            editted: self.editted,
        }
    }
}

impl RotationView {
    /// Four labelled fields twice, and nine matrix entries.
    pub open spec fn well_formed(self) -> bool {
        &&& self.quat_labels.len() == 4
        &&& self.quat.len() == 4
        &&& self.angleaxis_labels.len() == 4
        &&& self.angleaxis.len() == 4
        &&& self.rot_matrix.len() == 9
    }
}

/// Where the matrix entry of the given row and column is kept: the
/// matrix is laid out column by column.
pub open spec fn matrix_index(row: int, col: int) -> int {
    3 * col + row
}

/// Where the matrix entry of the given row and column is kept.
pub fn matrix_slot(row: usize, col: usize) -> (index: usize)
    requires
        row < 3,
        col < 3,
    ensures
        index == matrix_index(row as int, col as int),
        index < 9,
{
    3 * col + row
}

/// The identity rotation, as a new record shows it.
pub open spec fn default_view() -> RotationView {
    RotationView {
        quat_labels: seq!["Qw"@, "Qx"@, "Qy"@, "Qz"@],
        quat: seq!["1.0"@, "0.0"@, "0.0"@, "0.0"@],
        angleaxis_labels: seq!["Ang (rad)"@, "AxisX"@, "AxisY"@, "AxisZ"@],
        angleaxis: seq!["0.0"@, "1.0"@, "0.0"@, "0.0"@],
        rot_matrix: seq![
            "1.0"@,
            "0.0"@,
            "0.0"@,
            "0.0"@,
            "1.0"@,
            "0.0"@,
            "0.0"@,
            "0.0"@,
            "1.0"@,
        ],
        editted: false,
    }
}

impl Default for TemplateApp {
    fn default() -> (r: Self)
        ensures
            r@ == default_view(),
    {
        let r = Self {
            quat: [
                ("Qw".to_owned(), "1.0".to_owned()),
                ("Qx".to_owned(), "0.0".to_owned()),
                ("Qy".to_owned(), "0.0".to_owned()),
                ("Qz".to_owned(), "0.0".to_owned()),
            ],
            angleaxis: [
                ("Ang (rad)".to_owned(), "0.0".to_owned()),
                ("AxisX".to_owned(), "1.0".to_owned()),
                ("AxisY".to_owned(), "0.0".to_owned()),
                ("AxisZ".to_owned(), "0.0".to_owned()),
            ],
            rot_matrix: [
                "1.0".to_owned(),
                "0.0".to_owned(),
                "0.0".to_owned(),
                "0.0".to_owned(),
                "1.0".to_owned(),
                "0.0".to_owned(),
                "0.0".to_owned(),
                "0.0".to_owned(),
                "1.0".to_owned(),
            ],
            editted: false,
        };
        assert(r@.quat_labels =~= default_view().quat_labels);
        assert(r@.quat =~= default_view().quat);
        assert(r@.angleaxis_labels =~= default_view().angleaxis_labels);
        assert(r@.angleaxis =~= default_view().angleaxis);
        assert(r@.rot_matrix =~= default_view().rot_matrix);
        r
    }
}

impl TemplateApp {
    /// The record at start: what was kept from the last run, or else
    /// the identity rotation.
    pub fn new(stored: Option<TemplateApp>) -> (r: Self)
        ensures
            r@ == match stored {
                Some(kept) => kept@,
                None => default_view(),
            },
    {
        match stored {
            Some(kept) => kept,
            None => TemplateApp::default(),
        }
    }

    /// A record of the given fields: each quaternion and angle-axis field
    /// as its label and its text, then the matrix column by column.
    pub fn from_parts(
        quat: [(String, String); 4],
        angleaxis: [(String, String); 4],
        rot_matrix: [String; 9],
        editted: bool,
    ) -> (r: Self)
        ensures
            r@ == (RotationView {
                quat_labels: Seq::new(4, |i: int| quat[i].0@),
                quat: Seq::new(4, |i: int| quat[i].1@),
                angleaxis_labels: Seq::new(4, |i: int| angleaxis[i].0@),
                angleaxis: Seq::new(4, |i: int| angleaxis[i].1@),
                rot_matrix: Seq::new(9, |i: int| rot_matrix[i]@),
                editted,
            }),
    {
        Self { quat, angleaxis, rot_matrix, editted }
    }

    /// The label of the quaternion's field `index`.
    pub fn quat_label(&self, index: usize) -> (r: &str)
        requires
            index < 4,
        ensures
            r@ == self@.quat_labels[index as int],
    {
        self.quat[index].0.as_str()
    }

    /// The text of the quaternion's field `index`: w, x, y, z.
    pub fn quat_text(&self, index: usize) -> (r: &str)
        requires
            index < 4,
        ensures
            r@ == self@.quat[index as int],
    {
        self.quat[index].1.as_str()
    }

    /// The label of the angle-axis field `index`.
    pub fn angleaxis_label(&self, index: usize) -> (r: &str)
        requires
            index < 4,
        ensures
            r@ == self@.angleaxis_labels[index as int],
    {
        self.angleaxis[index].0.as_str()
    }

    /// The text of the angle-axis field `index`: angle, x, y, z.
    pub fn angleaxis_text(&self, index: usize) -> (r: &str)
        requires
            index < 4,
        ensures
            r@ == self@.angleaxis[index as int],
    {
        self.angleaxis[index].1.as_str()
    }

    /// The text of the matrix entry in the given row and column.
    pub fn matrix_text(&self, row: usize, col: usize) -> (r: &str)
        requires
            row < 3,
            col < 3,
        ensures
            r@ == self@.rot_matrix[matrix_index(row as int, col as int)],
    {
        self.rot_matrix[matrix_slot(row, col)].as_str()
    }

    /// Whether a field was edited since the representations last agreed.
    pub fn is_editted(&self) -> (r: bool)
        ensures
            r == self@.editted,
    {
        self.editted
    }

    /// The user typed `text` into the quaternion's field `index`.
    pub fn edit_quat(&mut self, index: usize, text: String)
        requires
            index < 4,
        ensures
            final(self)@ == (RotationView {
                quat: old(self)@.quat.update(index as int, text@),
                editted: true,
                ..old(self)@
            }),
    {
        self.quat[index].1 = text;
        self.editted = true;
        assert(self@.quat =~= old(self)@.quat.update(index as int, text@));
        assert(self@.quat_labels =~= old(self)@.quat_labels);
    }

    /// The user typed `text` into the angle-axis field `index`.
    pub fn edit_angleaxis(&mut self, index: usize, text: String)
        requires
            index < 4,
        ensures
            final(self)@ == (RotationView {
                angleaxis: old(self)@.angleaxis.update(index as int, text@),
                editted: true,
                ..old(self)@
            }),
    {
        self.angleaxis[index].1 = text;
        self.editted = true;
        assert(self@.angleaxis =~= old(self)@.angleaxis.update(index as int, text@));
        assert(self@.angleaxis_labels =~= old(self)@.angleaxis_labels);
    }

    /// The user typed `text` into the matrix entry of the given row and
    /// column.
    pub fn edit_matrix(&mut self, row: usize, col: usize, text: String)
        requires
            row < 3,
            col < 3,
        ensures
            final(self)@ == (RotationView {
                rot_matrix: old(self)@.rot_matrix.update(
                    matrix_index(row as int, col as int),
                    text@,
                ),
                editted: true,
                ..old(self)@
            }),
    {
        let index: usize = matrix_slot(row, col);
        self.rot_matrix[index] = text;
        self.editted = true;
        assert(self@.rot_matrix =~= old(self)@.rot_matrix.update(index as int, text@));
    }

    /// Writes all three representations anew and marks them as agreeing.
    /// The labels stay.
    pub(crate) fn rewrite(
        &mut self,
        quat: &[String; 4],
        angleaxis: &[String; 4],
        rot_matrix: &[String; 9],
    )
        ensures
            final(self)@ == (RotationView {
                quat: Seq::new(4, |i: int| quat[i]@),
                angleaxis: Seq::new(4, |i: int| angleaxis[i]@),
                rot_matrix: Seq::new(9, |i: int| rot_matrix[i]@),
                editted: false,
                ..old(self)@
            }),
    {
        let ghost new_quat = Seq::new(4, |i: int| quat[i]@);
        let ghost new_angleaxis = Seq::new(4, |i: int| angleaxis[i]@);
        let ghost new_matrix = Seq::new(9, |i: int| rot_matrix[i]@);
        let mut i: usize = 0;
        while i < 4
            invariant
                i <= 4,
                new_quat == Seq::new(4, |i: int| quat[i]@),
                new_angleaxis == Seq::new(4, |i: int| angleaxis[i]@),
                self@.quat_labels == old(self)@.quat_labels,
                self@.angleaxis_labels == old(self)@.angleaxis_labels,
                self@.quat.take(i as int) == new_quat.take(i as int),
                self@.angleaxis.take(i as int) == new_angleaxis.take(i as int),
            decreases 4 - i,
        {
            let ghost before = self@;
            self.quat[i].1 = quat[i].clone();
            self.angleaxis[i].1 = angleaxis[i].clone();
            proof {
                assert(self@.quat_labels =~= before.quat_labels);
                assert(self@.angleaxis_labels =~= before.angleaxis_labels);
                assert(self@.quat =~= before.quat.update(i as int, new_quat[i as int]));
                assert(self@.angleaxis =~= before.angleaxis.update(
                    i as int,
                    new_angleaxis[i as int],
                ));
                assert(self@.quat.take(i + 1) =~= before.quat.take(i as int).push(
                    new_quat[i as int],
                ));
                assert(new_quat.take(i + 1) =~= new_quat.take(i as int).push(new_quat[i as int]));
                assert(self@.angleaxis.take(i + 1) =~= before.angleaxis.take(i as int).push(
                    new_angleaxis[i as int],
                ));
                assert(new_angleaxis.take(i + 1) =~= new_angleaxis.take(i as int).push(
                    new_angleaxis[i as int],
                ));
            }
            i += 1;
        }
        let mut k: usize = 0;
        while k < 9
            invariant
                k <= 9,
                new_matrix == Seq::new(9, |i: int| rot_matrix[i]@),
                self@.quat_labels == old(self)@.quat_labels,
                self@.angleaxis_labels == old(self)@.angleaxis_labels,
                self@.quat.take(4) == new_quat.take(4),
                self@.angleaxis.take(4) == new_angleaxis.take(4),
                self@.rot_matrix.take(k as int) == new_matrix.take(k as int),
            decreases 9 - k,
        {
            let ghost before = self@;
            self.rot_matrix[k] = rot_matrix[k].clone();
            proof {
                assert(self@.quat_labels =~= before.quat_labels);
                assert(self@.angleaxis_labels =~= before.angleaxis_labels);
                assert(self@.quat =~= before.quat);
                assert(self@.angleaxis =~= before.angleaxis);
                assert(self@.rot_matrix =~= before.rot_matrix.update(
                    k as int,
                    new_matrix[k as int],
                ));
                assert(self@.rot_matrix.take(k + 1) =~= before.rot_matrix.take(k as int).push(
                    new_matrix[k as int],
                ));
                assert(new_matrix.take(k + 1) =~= new_matrix.take(k as int).push(
                    new_matrix[k as int],
                ));
            }
            k += 1;
        }
        self.editted = false;
        proof {
            assert(self@.quat =~= self@.quat.take(4));
            assert(new_quat =~= new_quat.take(4));
            assert(self@.angleaxis =~= self@.angleaxis.take(4));
            assert(new_angleaxis =~= new_angleaxis.take(4));
            assert(self@.rot_matrix =~= self@.rot_matrix.take(9));
            assert(new_matrix =~= new_matrix.take(9));
        }
    }

    /// The window's heading: whether the three representations agree.
    pub fn heading(&self) -> (r: &'static str)
        ensures
            r@ == if self@.editted {
                "Rotation tool (Unsync)"@
            } else {
                "Rotation tool (Sync)"@
            },
    {
        if self.editted {
            "Rotation tool (Unsync)"
        } else {
            "Rotation tool (Sync)"
        }
    }

    /// Every record holds four labelled fields twice and nine entries.
    pub proof fn lemma_well_formed(&self)
        ensures
            self@.well_formed(),
    {
    }
}

} // verus!

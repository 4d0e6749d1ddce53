use vstd::prelude::*;

verus! {

/// One sub-cell of a piece bitmap: `T` is occupied by the tetronimo,
/// `O` is unoccupied.
#[derive(Clone, Copy, Debug, PartialEq, Eq, Structural)]
pub enum PieceState {
    T,
    O,
}

/// The seven canonical tetronimo shapes.
#[derive(Clone, Copy, Debug, PartialEq, Eq, Structural)]
pub enum TetronimoKind {
    I,
    J,
    L,
    O,
    S,
    Z,
    T,
}

/// One of the four discrete orientations, cyclically ordered.
#[derive(Clone, Copy, Debug, PartialEq, Eq, Structural)]
pub enum Rotation {
    R0,
    R1,
    R2,
    R3,
}

/// The two senses a piece can be rotated in.
#[derive(Clone, Copy, Debug, PartialEq, Eq, Structural)]
pub enum RotateKind {
    Clockwise,
    Counterclockwise,
}

impl Rotation {
    /// The next orientation in the 4-cycle: clockwise advances,
    /// counterclockwise retreats, both wrapping around.
    pub open spec fn spec_rotate(self, kind: RotateKind) -> Rotation {
        match kind {
            RotateKind::Clockwise => match self {
                Rotation::R0 => Rotation::R1,
                Rotation::R1 => Rotation::R2,
                Rotation::R2 => Rotation::R3,
                Rotation::R3 => Rotation::R0,
            },
            RotateKind::Counterclockwise => match self {
                Rotation::R0 => Rotation::R3,
                Rotation::R1 => Rotation::R0,
                Rotation::R2 => Rotation::R1,
                Rotation::R3 => Rotation::R2,
            },
        }
    }

    /// Step one orientation along the cycle in the given sense.
    pub fn rotate(&self, kind: RotateKind) -> (r: Rotation)
        ensures
            r == self.spec_rotate(kind),
    {
        match kind {
            RotateKind::Clockwise => match self {
                Rotation::R0 => Rotation::R1,
                Rotation::R1 => Rotation::R2,
                Rotation::R2 => Rotation::R3,
                Rotation::R3 => Rotation::R0,
            },
            RotateKind::Counterclockwise => match self {
                Rotation::R0 => Rotation::R3,
                Rotation::R1 => Rotation::R0,
                Rotation::R2 => Rotation::R1,
                Rotation::R3 => Rotation::R2,
            },
        }
    }
}

/// Side length of a piece's square bitmap: 4 for I and O, 3 for the rest.
pub open spec fn size(kind: TetronimoKind) -> int {
    match kind {
        TetronimoKind::I => 4,
        TetronimoKind::O => 4,
        _ => 3,
    }
}

/// Which sub-cells of the bitmap for `kind` at orientation `rot` are
/// occupied; `i` is the bitmap row, `j` the bitmap column. These 28
/// entries are the standard rotation-system layout, irreducible domain
/// data rather than anything derived.
pub open spec fn occ(kind: TetronimoKind, rot: Rotation, i: int, j: int) -> bool {
    match (kind, rot) {
        (TetronimoKind::I, Rotation::R0) => i == 1 && 0 <= j < 4,
        (TetronimoKind::I, Rotation::R1) => j == 2 && 0 <= i < 4,
        (TetronimoKind::I, Rotation::R2) => i == 2 && 0 <= j < 4,
        (TetronimoKind::I, Rotation::R3) => j == 1 && 0 <= i < 4,
        (TetronimoKind::J, Rotation::R0) => (i == 0 && j == 0) || (i == 1 && 0 <= j < 3),
        (TetronimoKind::J, Rotation::R1) => (i == 0 && j == 2) || (j == 1 && 0 <= i < 3),
        (TetronimoKind::J, Rotation::R2) => (i == 1 && 0 <= j < 3) || (i == 2 && j == 2),
        (TetronimoKind::J, Rotation::R3) => (j == 1 && 0 <= i < 3) || (i == 2 && j == 0),
        (TetronimoKind::L, Rotation::R0) => (i == 0 && j == 2) || (i == 1 && 0 <= j < 3),
        (TetronimoKind::L, Rotation::R1) => (j == 1 && 0 <= i < 3) || (i == 2 && j == 2),
        (TetronimoKind::L, Rotation::R2) => (i == 1 && 0 <= j < 3) || (i == 2 && j == 0),
        (TetronimoKind::L, Rotation::R3) => (i == 0 && j == 0) || (j == 1 && 0 <= i < 3),
        (TetronimoKind::O, _) => 0 <= i < 2 && 1 <= j < 3,
        (TetronimoKind::S, Rotation::R0) => (i == 0 && 1 <= j < 3) || (i == 1 && 0 <= j < 2),
        (TetronimoKind::S, Rotation::R1) => (j == 1 && 0 <= i < 2) || (j == 2 && 1 <= i < 3),
        (TetronimoKind::S, Rotation::R2) => (i == 1 && 1 <= j < 3) || (i == 2 && 0 <= j < 2),
        (TetronimoKind::S, Rotation::R3) => (j == 0 && 0 <= i < 2) || (j == 1 && 1 <= i < 3),
        (TetronimoKind::T, Rotation::R0) => (i == 0 && j == 1) || (i == 1 && 0 <= j < 3),
        (TetronimoKind::T, Rotation::R1) => (j == 1 && 0 <= i < 3) || (i == 1 && j == 2),
        (TetronimoKind::T, Rotation::R2) => (i == 1 && 0 <= j < 3) || (i == 2 && j == 1),
        (TetronimoKind::T, Rotation::R3) => (j == 1 && 0 <= i < 3) || (i == 1 && j == 0),
        (TetronimoKind::Z, Rotation::R0) => (i == 0 && 0 <= j < 2) || (i == 1 && 1 <= j < 3),
        (TetronimoKind::Z, Rotation::R1) => (j == 2 && 0 <= i < 2) || (j == 1 && 1 <= i < 3),
        (TetronimoKind::Z, Rotation::R2) => (i == 1 && 0 <= j < 2) || (i == 2 && 1 <= j < 3),
        (TetronimoKind::Z, Rotation::R3) => (j == 1 && 0 <= i < 2) || (j == 0 && 1 <= i < 3),
    }
}

/// The kind a sampled index in 0..7 stands for, one for each kind.
pub open spec fn spec_kind_from_index(i: int) -> TetronimoKind {
    if i == 0 {
        TetronimoKind::I
    } else if i == 1 {
        TetronimoKind::J
    } else if i == 2 {
        TetronimoKind::L
    } else if i == 3 {
        TetronimoKind::O
    } else if i == 4 {
        TetronimoKind::S
    } else if i == 5 {
        TetronimoKind::T
    } else {
        TetronimoKind::Z
    }
}

/// Map a sampled index to its kind.
pub fn kind_from_index(idx: u8) -> (k: TetronimoKind)
    requires
        idx < 7,
    ensures
        k == spec_kind_from_index(idx as int),
{
    if idx == 0 {
        TetronimoKind::I
    } else if idx == 1 {
        TetronimoKind::J
    } else if idx == 2 {
        TetronimoKind::L
    } else if idx == 3 {
        TetronimoKind::O
    } else if idx == 4 {
        TetronimoKind::S
    } else if idx == 5 {
        TetronimoKind::T
    } else {
        TetronimoKind::Z
    }
}

/// Every bitmap has at least one occupied sub-cell: no kind/rotation
/// pair is entirely empty.
pub proof fn lemma_shape_nonempty(kind: TetronimoKind, rot: Rotation)
    ensures
        exists|i: int, j: int| occ(kind, rot, i, j),
{
    match (kind, rot) {
        (TetronimoKind::I, Rotation::R1) => {
            assert(occ(kind, rot, 0, 2));
        },
        (TetronimoKind::I, Rotation::R2) => {
            assert(occ(kind, rot, 2, 0));
        },
        (TetronimoKind::I, Rotation::R3) => {
            assert(occ(kind, rot, 0, 1));
        },
        (TetronimoKind::O, _) => {
            assert(occ(kind, rot, 0, 1));
        },
        _ => {
            assert(occ(kind, rot, 1, 1));
        },
    }
}

/// Occupied sub-cells lie inside the bitmap square.
pub proof fn lemma_occ_in_bitmap(kind: TetronimoKind, rot: Rotation, i: int, j: int)
    requires
        occ(kind, rot, i, j),
    ensures
        0 <= i < size(kind),
        0 <= j < size(kind),
{
}

impl TetronimoKind {
    /// The bitmap of this kind at the given orientation, as a
    /// `size × size` grid of sub-cells.
    pub fn cells(&self, rotation: &Rotation) -> (r: Vec<Vec<PieceState>>)
        ensures
            r@.len() == size(*self),
            forall|i: int| 0 <= i < r@.len() ==> (#[trigger] r@[i])@.len() == size(*self),
            forall|i: int, j: int|
                0 <= i < size(*self) && 0 <= j < size(*self) ==> ((#[trigger] r@[i]@[j])
                    == (if occ(*self, *rotation, i, j) {
                    PieceState::T
                } else {
                    PieceState::O
                })),
    {
        let o = PieceState::O;
        let t = PieceState::T;
        match (self, rotation) {
            (Self::I, Rotation::R0) => {
                vec![
                    vec![o, o, o, o],
                    vec![t, t, t, t],
                    vec![o, o, o, o],
                    vec![o, o, o, o],
                ]
            },
            (Self::I, Rotation::R1) => {
                vec![
                    vec![o, o, t, o],
                    vec![o, o, t, o],
                    vec![o, o, t, o],
                    vec![o, o, t, o],
                ]
            },
            (Self::I, Rotation::R2) => {
                vec![
                    vec![o, o, o, o],
                    vec![o, o, o, o],
                    vec![t, t, t, t],
                    vec![o, o, o, o],
                ]
            },
            (Self::I, Rotation::R3) => {
                vec![
                    vec![o, t, o, o],
                    vec![o, t, o, o],
                    vec![o, t, o, o],
                    vec![o, t, o, o],
                ]
            },
            (Self::J, Rotation::R0) => {
                vec![vec![t, o, o], vec![t, t, t], vec![o, o, o]]
            },
            (Self::J, Rotation::R1) => {
                vec![vec![o, t, t], vec![o, t, o], vec![o, t, o]]
            },
            (Self::J, Rotation::R2) => {
                vec![vec![o, o, o], vec![t, t, t], vec![o, o, t]]
            },
            (Self::J, Rotation::R3) => {
                vec![vec![o, t, o], vec![o, t, o], vec![t, t, o]]
            },
            (Self::L, Rotation::R0) => {
                vec![vec![o, o, t], vec![t, t, t], vec![o, o, o]]
            },
            (Self::L, Rotation::R1) => {
                vec![vec![o, t, o], vec![o, t, o], vec![o, t, t]]
            },
            (Self::L, Rotation::R2) => {
                vec![vec![o, o, o], vec![t, t, t], vec![t, o, o]]
            },
            (Self::L, Rotation::R3) => {
                vec![vec![t, t, o], vec![o, t, o], vec![o, t, o]]
            },
            (Self::O, _) => {
                vec![
                    vec![o, t, t, o],
                    vec![o, t, t, o],
                    vec![o, o, o, o],
                    vec![o, o, o, o],
                ]
            },
            (Self::S, Rotation::R0) => {
                vec![vec![o, t, t], vec![t, t, o], vec![o, o, o]]
            },
            (Self::S, Rotation::R1) => {
                vec![vec![o, t, o], vec![o, t, t], vec![o, o, t]]
            },
            (Self::S, Rotation::R2) => {
                vec![vec![o, o, o], vec![o, t, t], vec![t, t, o]]
            },
            (Self::S, Rotation::R3) => {
                vec![vec![t, o, o], vec![t, t, o], vec![o, t, o]]
            },
            (Self::T, Rotation::R0) => {
                vec![vec![o, t, o], vec![t, t, t], vec![o, o, o]]
            },
            (Self::T, Rotation::R1) => {
                vec![vec![o, t, o], vec![o, t, t], vec![o, t, o]]
            },
            (Self::T, Rotation::R2) => {
                vec![vec![o, o, o], vec![t, t, t], vec![o, t, o]]
            },
            (Self::T, Rotation::R3) => {
                vec![vec![o, t, o], vec![t, t, o], vec![o, t, o]]
            },
            (Self::Z, Rotation::R0) => {
                vec![vec![t, t, o], vec![o, t, t], vec![o, o, o]]
            },
            (Self::Z, Rotation::R1) => {
                vec![vec![o, o, t], vec![o, t, t], vec![o, t, o]]
            },
            (Self::Z, Rotation::R2) => {
                vec![vec![o, o, o], vec![t, t, o], vec![o, t, t]]
            },
            (Self::Z, Rotation::R3) => {
                vec![vec![o, t, o], vec![t, t, o], vec![t, o, o]]
            },
        }
    }
}

} // verus!

//! Error kinds and small tag types.
use vstd::prelude::*;

verus! {

/// Failures of the matrix and vector operations.
#[derive(Clone, Copy, Debug, PartialEq, Eq, Structural)]
pub enum MatrixifyErr {
    NonSquareMatrix,
    NonThirdMatrix,
    ZeroDeterminant,
    UnknownDeterminant,
    InappropriateSizes,
    InvalidIndex,
    DivByVector,
    NotAVector,
    ZeroDivision,
}

/// Names of well-known matrix patterns.
#[derive(Clone, Copy, Debug, PartialEq, Eq, Structural)]
pub enum MatrixType {
    Identity,
    NegIdentity,
    RevIdentity,
    NegRevIdentity,
    Cross,
    NegCross,
    Rhomb,
    NegRhomb,
    Ones,
}

/// Whether element-wise combination adds or subtracts.
#[derive(Clone, Copy, Debug, PartialEq, Eq, Structural)]
pub enum Sign {
    Plus,
    Minus,
}

/// An element-wise operation with a scalar.
#[derive(Clone, Copy, Debug, PartialEq, Eq, Structural)]
pub enum Ops {
    Add,
    Sub,
    Mul,
    Div,
}

/// Errors of the grid storage.
#[derive(Clone, Copy, Debug, PartialEq, Eq, Structural)]
pub enum MatrErr {
    ErrByDesign,
    UnhandledFailure,
    EmptyAtAll,
    CurveSides,
    CrookedSquare,
    TooManyRows,
    TooManyCols,
    OutOfBounds,
    Untransposable,
    IsLinear,
    NotLinear,
}

/// How a grid is to be read.
#[derive(Clone, Copy, Debug, PartialEq, Eq, Structural)]
pub enum Repr {
    /// An arbitrary non-empty rectangular matrix.
    Matrix,
    /// A non-empty square matrix.
    Square,
    /// A non-empty row.
    Row,
    /// A non-empty column.
    Col,
    /// A non-empty list of rows.
    RowList,
    /// A non-empty list of columns.
    ColList,
    /// An unrecoverable error, kept in place of the contents.
    Failure(MatrErr),
}

/// A direction: horizontal or vertical.
#[derive(Clone, Copy, Debug, PartialEq, Eq, Structural)]
pub enum Dir {
    Hor,
    Ver,
}

/// What is wrong with the shape of grid contents.
#[derive(Clone, Copy, Debug, PartialEq, Eq, Structural)]
pub enum GridErr {
    /// No element at all.
    IsEmpty,
    /// The row at this index differs in length from the first row.
    CurveSides(usize),
}

/// Errors of the grid layer.
#[derive(Clone, Copy, Debug, PartialEq, Eq, Structural)]
pub enum ReErr {
    GridErr(GridErr),
}

} // verus!

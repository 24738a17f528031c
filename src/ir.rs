//! Storage descriptors of the kernel intermediate representation: element
//! types, vectorized items, matrix fragments and local variables.
use vstd::prelude::*;

verus! {

/// Floating-point element kinds.
#[derive(Clone, Copy, Debug, PartialEq, Eq, Structural)]
pub enum FloatKind {
    F16,
    BF16,
    F32,
    F64,
}

/// Signed integer element kinds.
#[derive(Clone, Copy, Debug, PartialEq, Eq, Structural)]
pub enum IntKind {
    I32,
    I64,
}

/// Scalar element type of a storage location.
#[derive(Clone, Copy, Debug, PartialEq, Eq, Structural)]
pub enum Elem {
    Float(FloatKind),
    Int(IntKind),
    AtomicInt(IntKind),
    UInt,
    AtomicUInt,
    Bool,
}

impl Elem {
    pub open spec fn spec_is_atomic(&self) -> bool {
        self is AtomicInt || self is AtomicUInt
    }

    /// Whether the element is accessed with atomic operations.
    #[verifier::when_used_as_spec(spec_is_atomic)]
    pub fn is_atomic(&self) -> (r: bool)
        ensures
            r == self.spec_is_atomic(),
    {
        match self {
            Elem::AtomicInt(_) | Elem::AtomicUInt => true,
            _ => false,
        }
    }

    pub open spec fn spec_size(&self) -> usize {
        match self {
            Elem::Float(FloatKind::F16) | Elem::Float(FloatKind::BF16) => 2,
            Elem::Float(FloatKind::F32) => 4,
            Elem::Float(FloatKind::F64) => 8,
            Elem::Int(IntKind::I32) | Elem::AtomicInt(IntKind::I32) => 4,
            Elem::Int(IntKind::I64) | Elem::AtomicInt(IntKind::I64) => 8,
            Elem::UInt | Elem::AtomicUInt => 4,
            Elem::Bool => 1,
        }
    }

    /// Size of one scalar of this element type, in bytes.
    #[verifier::when_used_as_spec(spec_size)]
    pub fn size(&self) -> (r: usize)
        ensures
            r == self.spec_size(),
    {
        match self {
            Elem::Float(FloatKind::F16) | Elem::Float(FloatKind::BF16) => 2,
            Elem::Float(FloatKind::F32) => 4,
            Elem::Float(FloatKind::F64) => 8,
            Elem::Int(IntKind::I32) | Elem::AtomicInt(IntKind::I32) => 4,
            Elem::Int(IntKind::I64) | Elem::AtomicInt(IntKind::I64) => 8,
            Elem::UInt | Elem::AtomicUInt => 4,
            Elem::Bool => 1,
        }
    }
}

/// An element type together with its vectorization width (1 for a scalar).
#[derive(Clone, Copy, Debug, PartialEq, Eq, Structural)]
pub struct Item {
    pub elem: Elem,
    pub vectorization: u8,
}

impl Item {
    /// A scalar item of the given element type.
    pub fn new(elem: Elem) -> (r: Item)
        ensures
            r == (Item { elem, vectorization: 1 }),
    {
        Item { elem, vectorization: 1 }
    }

    /// An item of the given element type packed `vectorization` wide.
    pub fn vectorized(elem: Elem, vectorization: u8) -> (r: Item)
        ensures
            r == (Item { elem, vectorization }),
    {
        Item { elem, vectorization }
    }
}

/// Role of a matrix fragment in a fragment product.
#[derive(Clone, Copy, Debug, PartialEq, Eq, Structural)]
pub enum MatrixIdent {
    A,
    B,
    Accumulator,
}

/// Memory layout of a matrix fragment.
#[derive(Clone, Copy, Debug, PartialEq, Eq, Structural)]
pub enum FragmentLayout {
    ColMajor,
    RowMajor,
    Undefined,
}

/// Shape and role of a hardware matrix fragment.
#[derive(Clone, Copy, Debug, PartialEq, Eq, Structural)]
pub struct Matrix {
    pub ident: MatrixIdent,
    pub m: u8,
    pub n: u8,
    pub k: u8,
    pub elem: Elem,
    pub layout: FragmentLayout,
}

/// What kind of local storage a variable names, with its id.
#[derive(Clone, Copy, Debug, PartialEq, Eq, Structural)]
pub enum VariableKind {
    LocalConst { id: u32 },
    LocalMut { id: u32 },
    LocalArray { id: u32, length: u32 },
    Slice { id: u32 },
    Matrix { id: u32, mat: Matrix },
}

/// A local storage location of a kernel.
#[derive(Clone, Copy, Debug, PartialEq, Eq, Structural)]
pub struct Variable {
    pub kind: VariableKind,
    pub item: Item,
}

impl Variable {
    pub fn new(kind: VariableKind, item: Item) -> (r: Variable)
        ensures
            r == (Variable { kind, item }),
    {
        Variable { kind, item }
    }

    pub open spec fn spec_id(&self) -> u32 {
        match self.kind {
            VariableKind::LocalConst { id } => id,
            VariableKind::LocalMut { id } => id,
            VariableKind::LocalArray { id, .. } => id,
            VariableKind::Slice { id } => id,
            VariableKind::Matrix { id, .. } => id,
        }
    }

    /// The id of the storage location.
    #[verifier::when_used_as_spec(spec_id)]
    pub fn id(&self) -> (r: u32)
        ensures
            r == self.spec_id(),
    {
        match self.kind {
            VariableKind::LocalConst { id } => id,
            VariableKind::LocalMut { id } => id,
            VariableKind::LocalArray { id, .. } => id,
            VariableKind::Slice { id } => id,
            VariableKind::Matrix { id, .. } => id,
        }
    }
}

/// A variable handed out by the allocator: `Managed` ones belong to the
/// reuse pool and go back to it when released, `Plain` ones are never reused.
#[derive(Clone, Copy, Debug, PartialEq, Eq, Structural)]
pub enum ExpandElement {
    Managed(Variable),
    Plain(Variable),
}

impl ExpandElement {
    pub open spec fn spec_variable(&self) -> Variable {
        match self {
            ExpandElement::Managed(v) => *v,
            ExpandElement::Plain(v) => *v,
        }
    }

    /// The variable this element stands for.
    #[verifier::when_used_as_spec(spec_variable)]
    pub fn variable(&self) -> (r: Variable)
        ensures
            r == self.spec_variable(),
    {
        match self {
            ExpandElement::Managed(v) => *v,
            ExpandElement::Plain(v) => *v,
        }
    }
}

} // verus!

//! The instructions of compiled programs.
use vstd::prelude::*;

use crate::ast::{Number, NumberV};

verus! {

/// The planes a segment can lie in.
#[derive(Clone, Copy, Debug, PartialEq, Eq, Structural)]
pub enum Plane {
    /// Back
    XY,
    /// u = Y, v = Z
    YZ,
    /// Floor
    XZ,
    /// Left
    ZY,
}

/// A value that an instruction pushes. The program computes with 32-bit
/// floats; a pushed number is kept here as the literal it came from (or, for a
/// material, as the material's index), and becomes a float where the program
/// is run.
#[derive(Debug)]
pub enum Operand {
    Bool(bool),
    Float(Number),
    Index(usize),
    Float3(Number, Number, Number),
}

pub enum OperandV {
    Bool(bool),
    Float(NumberV),
    Index(usize),
    Float3(NumberV, NumberV, NumberV),
}

impl View for Operand {
    type V = OperandV;

    open spec fn view(&self) -> OperandV {
        match self {
            Operand::Bool(b) => OperandV::Bool(*b),
            Operand::Float(n) => OperandV::Float(n@),
            Operand::Index(i) => OperandV::Index(*i),
            Operand::Float3(a, b, c) => OperandV::Float3(a@, b@, c@),
        }
    }
}

/// An instruction of the stack machine that runs compiled programs.
#[derive(Debug)]
pub enum NodeOp {
    Load(usize),
    Store(usize),
    GetComponents(Vec<u8>),
    SetComponents(Vec<u8>),
    If(Vec<NodeOp>, Option<Vec<NodeOp>>),
    Place(String),
    Push(Operand),
    Swap,
    Clear,
    Dup,
    World,
    Local,
    U,
    V,
    D,
    Hash,
    Pack2,
    Pack3,
    Add,
    Sub,
    Mul,
    Div,
    Length,
    Abs,
    Sin,
    Cos,
    Tan,
    Floor,
    Ceil,
    Fract,
    Mod,
    Degrees,
    Radians,
    Eq,
    Ne,
    Lt,
    Le,
    Gt,
    Ge,
    And,
    Or,
    Not,
    Neg,
    MaterialAlbedo,
    MaterialSubsurface,
    MaterialMetallic,
    MaterialSpecularTint,
    MaterialRoughness,
    MaterialAnisotropic,
    MaterialSheen,
    MaterialSheenTint,
    MaterialClearcoat,
    MaterialClearcoatGloss,
    MaterialIOR,
    MaterialTransmission,
    MaterialEmission,
    ShapeRect(Vec<NodeOp>),
    ShapeDisc(Vec<NodeOp>),
    SegmentLeft(Vec<NodeOp>, Vec<NodeOp>),
    SegmentBack(Vec<NodeOp>, Vec<NodeOp>),
    SegmentFloor(Vec<NodeOp>, Vec<NodeOp>),
    PatternModulo(Option<Vec<NodeOp>>, Option<Vec<NodeOp>>),
    PatternBricks(Option<Vec<NodeOp>>, Option<Vec<NodeOp>>),
}

/// The model of a [`NodeOp`].
pub enum NodeOpV {
    Load(usize),
    Store(usize),
    GetComponents(Seq<u8>),
    SetComponents(Seq<u8>),
    If(Seq<NodeOpV>, Option<Seq<NodeOpV>>),
    Place(Seq<char>),
    Push(OperandV),
    Swap,
    Clear,
    Dup,
    World,
    Local,
    U,
    V,
    D,
    Hash,
    Pack2,
    Pack3,
    Add,
    Sub,
    Mul,
    Div,
    Length,
    Abs,
    Sin,
    Cos,
    Tan,
    Floor,
    Ceil,
    Fract,
    Mod,
    Degrees,
    Radians,
    Eq,
    Ne,
    Lt,
    Le,
    Gt,
    Ge,
    And,
    Or,
    Not,
    Neg,
    MaterialAlbedo,
    MaterialSubsurface,
    MaterialMetallic,
    MaterialSpecularTint,
    MaterialRoughness,
    MaterialAnisotropic,
    MaterialSheen,
    MaterialSheenTint,
    MaterialClearcoat,
    MaterialClearcoatGloss,
    MaterialIOR,
    MaterialTransmission,
    MaterialEmission,
    ShapeRect(Seq<NodeOpV>),
    ShapeDisc(Seq<NodeOpV>),
    SegmentLeft(Seq<NodeOpV>, Seq<NodeOpV>),
    SegmentBack(Seq<NodeOpV>, Seq<NodeOpV>),
    SegmentFloor(Seq<NodeOpV>, Seq<NodeOpV>),
    PatternModulo(Option<Seq<NodeOpV>>, Option<Seq<NodeOpV>>),
    PatternBricks(Option<Seq<NodeOpV>>, Option<Seq<NodeOpV>>),
}

impl NodeOp {
    /// The models of a list of instructions.
    pub open spec fn models(ops: Seq<NodeOp>) -> Seq<NodeOpV>
        decreases ops,
    {
        if ops.len() == 0 {
            Seq::empty()
        } else {
            Self::models(ops.drop_last()).push(ops.last().model())
        }
    }

    pub open spec fn opt_models(ops: Option<Vec<NodeOp>>) -> Option<Seq<NodeOpV>>
        decreases ops,
    {
        match ops {
            Some(v) => Some(Self::models(v@)),
            None => None,
        }
    }

    pub open spec fn model(&self) -> NodeOpV
        decreases self,
    {
        match self {
            NodeOp::Load(i) => NodeOpV::Load(*i),
            NodeOp::Store(i) => NodeOpV::Store(*i),
            NodeOp::GetComponents(s) => NodeOpV::GetComponents(s@),
            NodeOp::SetComponents(s) => NodeOpV::SetComponents(s@),
            NodeOp::If(t, e) => NodeOpV::If(Self::models(t@), Self::opt_models(*e)),
            NodeOp::Place(n) => NodeOpV::Place(n@),
            NodeOp::Push(v) => NodeOpV::Push(v@),
            NodeOp::Swap => NodeOpV::Swap,
            NodeOp::Clear => NodeOpV::Clear,
            NodeOp::Dup => NodeOpV::Dup,
            NodeOp::World => NodeOpV::World,
            NodeOp::Local => NodeOpV::Local,
            NodeOp::U => NodeOpV::U,
            NodeOp::V => NodeOpV::V,
            NodeOp::D => NodeOpV::D,
            NodeOp::Hash => NodeOpV::Hash,
            NodeOp::Pack2 => NodeOpV::Pack2,
            NodeOp::Pack3 => NodeOpV::Pack3,
            NodeOp::Add => NodeOpV::Add,
            NodeOp::Sub => NodeOpV::Sub,
            NodeOp::Mul => NodeOpV::Mul,
            NodeOp::Div => NodeOpV::Div,
            NodeOp::Length => NodeOpV::Length,
            NodeOp::Abs => NodeOpV::Abs,
            NodeOp::Sin => NodeOpV::Sin,
            NodeOp::Cos => NodeOpV::Cos,
            NodeOp::Tan => NodeOpV::Tan,
            NodeOp::Floor => NodeOpV::Floor,
            NodeOp::Ceil => NodeOpV::Ceil,
            NodeOp::Fract => NodeOpV::Fract,
            NodeOp::Mod => NodeOpV::Mod,
            NodeOp::Degrees => NodeOpV::Degrees,
            NodeOp::Radians => NodeOpV::Radians,
            NodeOp::Eq => NodeOpV::Eq,
            NodeOp::Ne => NodeOpV::Ne,
            NodeOp::Lt => NodeOpV::Lt,
            NodeOp::Le => NodeOpV::Le,
            NodeOp::Gt => NodeOpV::Gt,
            NodeOp::Ge => NodeOpV::Ge,
            NodeOp::And => NodeOpV::And,
            NodeOp::Or => NodeOpV::Or,
            NodeOp::Not => NodeOpV::Not,
            NodeOp::Neg => NodeOpV::Neg,
            NodeOp::MaterialAlbedo => NodeOpV::MaterialAlbedo,
            NodeOp::MaterialSubsurface => NodeOpV::MaterialSubsurface,
            NodeOp::MaterialMetallic => NodeOpV::MaterialMetallic,
            NodeOp::MaterialSpecularTint => NodeOpV::MaterialSpecularTint,
            NodeOp::MaterialRoughness => NodeOpV::MaterialRoughness,
            NodeOp::MaterialAnisotropic => NodeOpV::MaterialAnisotropic,
            NodeOp::MaterialSheen => NodeOpV::MaterialSheen,
            NodeOp::MaterialSheenTint => NodeOpV::MaterialSheenTint,
            NodeOp::MaterialClearcoat => NodeOpV::MaterialClearcoat,
            NodeOp::MaterialClearcoatGloss => NodeOpV::MaterialClearcoatGloss,
            NodeOp::MaterialIOR => NodeOpV::MaterialIOR,
            NodeOp::MaterialTransmission => NodeOpV::MaterialTransmission,
            NodeOp::MaterialEmission => NodeOpV::MaterialEmission,
            NodeOp::ShapeRect(c) => NodeOpV::ShapeRect(Self::models(c@)),
            NodeOp::ShapeDisc(c) => NodeOpV::ShapeDisc(Self::models(c@)),
            NodeOp::SegmentLeft(d, c) => NodeOpV::SegmentLeft(Self::models(d@), Self::models(c@)),
            NodeOp::SegmentBack(d, c) => NodeOpV::SegmentBack(Self::models(d@), Self::models(c@)),
            NodeOp::SegmentFloor(d, c) => NodeOpV::SegmentFloor(Self::models(d@), Self::models(c@)),
            NodeOp::PatternModulo(a, b) => NodeOpV::PatternModulo(
                Self::opt_models(*a),
                Self::opt_models(*b),
            ),
            NodeOp::PatternBricks(a, b) => NodeOpV::PatternBricks(
                Self::opt_models(*a),
                Self::opt_models(*b),
            ),
        }
    }

    pub proof fn lemma_models_push(ops: Seq<NodeOp>, op: NodeOp)
        ensures
            Self::models(ops.push(op)) == Self::models(ops).push(op.model()),
    {
        assert(ops.push(op).drop_last() == ops);
    }

    pub proof fn lemma_models_add(a: Seq<NodeOp>, b: Seq<NodeOp>)
        ensures
            Self::models(a + b) == Self::models(a) + Self::models(b),
        decreases b.len(),
    {
        if b.len() == 0 {
            assert(a + b == a);
            assert(Self::models(b) == Seq::<NodeOpV>::empty());
            assert(Self::models(a) + Self::models(b) == Self::models(a));
        } else {
            Self::lemma_models_add(a, b.drop_last());
            assert((a + b).drop_last() == a + b.drop_last());
            assert((a + b).last() == b.last());
            assert(Self::models(a) + Self::models(b) == (Self::models(a) + Self::models(b.drop_last())).push(b.last().model()));
        }
    }
}

/// Where compiled instructions go when no nested body is being compiled.
#[derive(Debug)]
pub enum OutputTarget {
    Globals,
    Custom,
    Voxels(String),
}

pub enum OutputTargetV {
    Globals,
    Custom,
    Voxels(Seq<char>),
}

impl View for OutputTarget {
    type V = OutputTargetV;

    open spec fn view(&self) -> OutputTargetV {
        match self {
            OutputTarget::Globals => OutputTargetV::Globals,
            OutputTarget::Custom => OutputTargetV::Custom,
            OutputTarget::Voxels(n) => OutputTargetV::Voxels(n@),
        }
    }
}

/// The code of a declared voxel: its size and its body.
#[derive(Debug)]
pub struct VoxelCode {
    pub name: String,
    pub size: Vec<NodeOp>,
    pub body: Vec<NodeOp>,
}

pub struct VoxelCodeV {
    pub name: Seq<char>,
    pub size: Seq<NodeOpV>,
    pub body: Seq<NodeOpV>,
}

impl VoxelCode {
    pub open spec fn model(&self) -> VoxelCodeV {
        VoxelCodeV { name: self.name@, size: NodeOp::models(self.size@), body: NodeOp::models(self.body@) }
    }
}

} // verus!

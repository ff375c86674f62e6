use vstd::prelude::*;
use crate::scalar::Scalar;

verus! {

/// One instruction of a basic block.
///
/// The `opcode` holds a mnemonic and, after the first space, an operand
/// text; `ty` is the instruction's display value, rendered as JSON in the
/// output.
#[derive(Debug, Clone, PartialEq, Eq)]
pub struct Instruction {
    pub id: u64,
    pub opcode: String,
    pub ty: Scalar,
}

/// One basic block: a display number, its instructions in order, and the
/// display numbers of its successor blocks in order.
#[derive(Debug, Clone, PartialEq, Eq)]
pub struct Block {
    pub number: Scalar,
    pub instructions: Vec<Instruction>,
    pub successors: Vec<Scalar>,
}

/// One optimization pass over a function: a display name and the basic
/// blocks of its mid-level tier.
#[derive(Debug, Clone, PartialEq, Eq)]
pub struct Pass {
    pub name: Scalar,
    pub blocks: Vec<Block>,
}

/// One compiled function: a display name and its passes in order.
#[derive(Debug, Clone, PartialEq, Eq)]
pub struct Function {
    pub name: Scalar,
    pub passes: Vec<Pass>,
}

/// A whole log: the compiled functions in order.
#[derive(Debug, Clone, PartialEq, Eq)]
pub struct Document {
    pub functions: Vec<Function>,
}

/// The mathematical shape of a [`Block`].
pub struct BlockV {
    pub number: Scalar,
    pub instructions: Seq<Instruction>,
    pub successors: Seq<Scalar>,
}

/// The mathematical shape of a [`Pass`].
pub struct PassV {
    pub name: Scalar,
    pub blocks: Seq<BlockV>,
}

/// The mathematical shape of a [`Function`].
pub struct FunctionV {
    pub name: Scalar,
    pub passes: Seq<PassV>,
}

/// The mathematical shape of a [`Document`].
pub struct DocumentV {
    pub functions: Seq<FunctionV>,
}

impl View for Block {
    type V = BlockV;

    open spec fn view(&self) -> BlockV {
        BlockV {
            number: self.number,
            instructions: self.instructions@,
            successors: self.successors@,
        }
    }
}

impl View for Pass {
    type V = PassV;

    open spec fn view(&self) -> PassV {
        PassV { name: self.name, blocks: self.blocks@.map_values(|b: Block| b@) }
    }
}

impl View for Function {
    type V = FunctionV;

    open spec fn view(&self) -> FunctionV {
        FunctionV { name: self.name, passes: self.passes@.map_values(|p: Pass| p@) }
    }
}

impl View for Document {
    type V = DocumentV;

    open spec fn view(&self) -> DocumentV {
        DocumentV { functions: self.functions@.map_values(|f: Function| f@) }
    }
}

} // verus!

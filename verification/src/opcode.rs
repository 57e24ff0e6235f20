//! Opcodes and the 16-bit code words of a function body.
//!
//! The body of a function is a sequence of words. A word is an opcode or a
//! signed data word, and the data words of an instruction follow its opcode:
//!
//! | instruction | data words |
//! |---|---|
//! | `PUSH_IMM` | the value |
//! | `LOAD` | the tag of the index space, the index |
//! | `STORE` | the tag of the target, the index or stack offset of the target, the stack offset of the value, the number of the operator or `NO_OP` |
//! | `JUMP`, `JUMP_IF`, `JUMP_IF_NOT`, `RANGE` | the offset of the target from the word after the data word |
//! | `CALL` | 1 where the last argument is spread, else 0 |
//! | `MAKE`, `APPEND` | the pack count |
//! | `RETURN_INIT_PKG`, `IMPORT` | the index of the package |
//!
//! All other instructions are an opcode alone.

use vstd::prelude::*;

verus! {

/// One operation of the stack machine.
#[allow(non_camel_case_types)]
#[derive(Clone, Copy, Debug, PartialEq, Eq, Structural)]
pub enum Opcode {
    PUSH_NIL,
    PUSH_TRUE,
    PUSH_FALSE,
    PUSH_IMM,
    POP,
    LOAD,
    STORE,
    LOAD_FIELD,
    REF,
    DEREF,
    NEW,
    ADD,
    SUB,
    MUL,
    QUO,
    REM,
    AND,
    OR,
    XOR,
    SHL,
    SHR,
    AND_NOT,
    NOT,
    UNARY_ADD,
    UNARY_SUB,
    UNARY_XOR,
    EQL,
    LSS,
    GTR,
    NEQ,
    LEQ,
    GEQ,
    JUMP,
    JUMP_IF,
    JUMP_IF_NOT,
    PRE_CALL,
    CALL,
    RETURN,
    RETURN_INIT_PKG,
    IMPORT,
    SLICE,
    SLICE_FULL,
    RANGE,
    MAKE,
    LEN,
    CAP,
    APPEND,
    ASSERT,
}

/// A word of a function body: an opcode, or a signed data word that belongs to
/// the opcode before it.
#[derive(Clone, Copy, Debug, PartialEq, Eq, Structural)]
pub enum CodeWord {
    Code(Opcode),
    Data(i16),
}

/// Index-space tags, the first data word of `LOAD` and `STORE`.
pub const TAG_LOCAL: i16 = 0;

pub const TAG_UPVALUE: i16 = 1;

pub const TAG_PKG_MEMBER: i16 = 2;

pub const TAG_CONST: i16 = 3;

pub const TAG_BUILT_IN: i16 = 4;

pub const TAG_BLANK: i16 = 5;

pub const TAG_INDEX_SEL: i16 = 6;

pub const TAG_DEREF: i16 = 7;

/// The last data word of a `STORE` that applies no operator.
pub const NO_OP: i16 = -1;

impl Opcode {
    /// The number by which an opcode is written into a data word.
    pub open spec fn spec_index(self) -> i16 {
        match self {
            Opcode::PUSH_NIL => 0,
            Opcode::PUSH_TRUE => 1,
            Opcode::PUSH_FALSE => 2,
            Opcode::PUSH_IMM => 3,
            Opcode::POP => 4,
            Opcode::LOAD => 5,
            Opcode::STORE => 6,
            Opcode::LOAD_FIELD => 7,
            Opcode::REF => 8,
            Opcode::DEREF => 9,
            Opcode::NEW => 10,
            Opcode::ADD => 11,
            Opcode::SUB => 12,
            Opcode::MUL => 13,
            Opcode::QUO => 14,
            Opcode::REM => 15,
            Opcode::AND => 16,
            Opcode::OR => 17,
            Opcode::XOR => 18,
            Opcode::SHL => 19,
            Opcode::SHR => 20,
            Opcode::AND_NOT => 21,
            Opcode::NOT => 22,
            Opcode::UNARY_ADD => 23,
            Opcode::UNARY_SUB => 24,
            Opcode::UNARY_XOR => 25,
            Opcode::EQL => 26,
            Opcode::LSS => 27,
            Opcode::GTR => 28,
            Opcode::NEQ => 29,
            Opcode::LEQ => 30,
            Opcode::GEQ => 31,
            Opcode::JUMP => 32,
            Opcode::JUMP_IF => 33,
            Opcode::JUMP_IF_NOT => 34,
            Opcode::PRE_CALL => 35,
            Opcode::CALL => 36,
            Opcode::RETURN => 37,
            Opcode::RETURN_INIT_PKG => 38,
            Opcode::IMPORT => 39,
            Opcode::SLICE => 40,
            Opcode::SLICE_FULL => 41,
            Opcode::RANGE => 42,
            Opcode::MAKE => 43,
            Opcode::LEN => 44,
            Opcode::CAP => 45,
            Opcode::APPEND => 46,
            Opcode::ASSERT => 47,
        }
    }

    /// How many data words follow the opcode in a function body.
    pub open spec fn spec_operands(self) -> nat {
        match self {
            Opcode::STORE => 4,
            Opcode::LOAD => 2,
            Opcode::PUSH_IMM | Opcode::JUMP | Opcode::JUMP_IF | Opcode::JUMP_IF_NOT | Opcode::RANGE
            | Opcode::CALL | Opcode::RETURN_INIT_PKG | Opcode::IMPORT | Opcode::MAKE
            | Opcode::APPEND => 1,
            _ => 0,
        }
    }

    /// Whether the opcode's data word is a relative jump offset.
    pub open spec fn spec_is_jump(self) -> bool {
        self == Opcode::JUMP || self == Opcode::JUMP_IF || self == Opcode::JUMP_IF_NOT || self
            == Opcode::RANGE
    }

    #[verifier::when_used_as_spec(spec_index)]
    pub fn index(self) -> (r: i16)
        ensures
            r == self.spec_index(),
            0 <= r < 48,
    {
        match self {
            Opcode::PUSH_NIL => 0,
            Opcode::PUSH_TRUE => 1,
            Opcode::PUSH_FALSE => 2,
            Opcode::PUSH_IMM => 3,
            Opcode::POP => 4,
            Opcode::LOAD => 5,
            Opcode::STORE => 6,
            Opcode::LOAD_FIELD => 7,
            Opcode::REF => 8,
            Opcode::DEREF => 9,
            Opcode::NEW => 10,
            Opcode::ADD => 11,
            Opcode::SUB => 12,
            Opcode::MUL => 13,
            Opcode::QUO => 14,
            Opcode::REM => 15,
            Opcode::AND => 16,
            Opcode::OR => 17,
            Opcode::XOR => 18,
            Opcode::SHL => 19,
            Opcode::SHR => 20,
            Opcode::AND_NOT => 21,
            Opcode::NOT => 22,
            Opcode::UNARY_ADD => 23,
            Opcode::UNARY_SUB => 24,
            Opcode::UNARY_XOR => 25,
            Opcode::EQL => 26,
            Opcode::LSS => 27,
            Opcode::GTR => 28,
            Opcode::NEQ => 29,
            Opcode::LEQ => 30,
            Opcode::GEQ => 31,
            Opcode::JUMP => 32,
            Opcode::JUMP_IF => 33,
            Opcode::JUMP_IF_NOT => 34,
            Opcode::PRE_CALL => 35,
            Opcode::CALL => 36,
            Opcode::RETURN => 37,
            Opcode::RETURN_INIT_PKG => 38,
            Opcode::IMPORT => 39,
            Opcode::SLICE => 40,
            Opcode::SLICE_FULL => 41,
            Opcode::RANGE => 42,
            Opcode::MAKE => 43,
            Opcode::LEN => 44,
            Opcode::CAP => 45,
            Opcode::APPEND => 46,
            Opcode::ASSERT => 47,
        }
    }

    #[verifier::when_used_as_spec(spec_is_jump)]
    pub fn is_jump(self) -> (r: bool)
        ensures
            r == self.spec_is_jump(),
    {
        match self {
            Opcode::JUMP | Opcode::JUMP_IF | Opcode::JUMP_IF_NOT | Opcode::RANGE => true,
            _ => false,
        }
    }
}

/// Two opcodes with the same number are the same opcode.
pub proof fn lemma_index_injective(a: Opcode, b: Opcode)
    requires
        a.spec_index() == b.spec_index(),
    ensures
        a == b,
{
}

} // verus!

//! Values, the addresses of values, and the errors of generation.

use vstd::prelude::*;
use crate::opcode::{
    Opcode, TAG_BLANK, TAG_BUILT_IN, TAG_CONST, TAG_DEREF, TAG_INDEX_SEL, TAG_LOCAL, TAG_PKG_MEMBER,
    TAG_UPVALUE,
};

verus! {

/// The parser's handle for the site where a name is bound.
pub type EntityKey = u64;

/// Keys into the object tables: the position of the object in its table.
pub type FunctionKey = usize;

pub type PackageKey = usize;

pub type TypeKey = usize;

pub type StringKey = usize;

pub type SliceKey = usize;

pub type MapKey = usize;

pub type BoxKey = usize;

/// A value of the machine. What lies behind a key is in the object tables.
/// A `Float64` holds the bits of the IEEE 754 double.
#[derive(Clone, Copy, Debug, PartialEq, Eq, Structural)]
pub enum Value {
    Nil,
    Bool(bool),
    Int(i64),
    Float64(u64),
    Str(StringKey),
    Slice(SliceKey),
    MapVal(MapKey),
    Function(FunctionKey),
    Type(TypeKey),
    Boxed(BoxKey),
}

/// Where the value of an identifier lives at run time.
#[derive(Clone, Copy, Debug, PartialEq, Eq, Structural)]
pub enum EntIndex {
    LocalVar(i16),
    UpValue(i16),
    PackageMember(i16),
    Const(i16),
    BuiltIn(Opcode),
    Blank,
}

/// A variable captured from an enclosing function.
#[derive(Clone, Copy, Debug, PartialEq, Eq, Structural)]
pub enum UpValue {
    Open(FunctionKey, EntIndex),
    Closed(Value),
}

/// The target of an assignment. The offsets count stack words from the top.
#[derive(Clone, Copy, Debug, PartialEq, Eq, Structural)]
pub enum LeftHandSide {
    Primitive(EntIndex),
    IndexSelExpr(i16),
    Deref(i16),
}

/// Why a constant literal was refused.
#[derive(Clone, Copy, Debug, PartialEq, Eq, Structural)]
pub enum TypeError {
    /// A float literal with a fractional part was given for an integer.
    Truncated,
    /// The literal does not fit the integer type.
    OverflowsInt,
    /// The literal does not suit the declared type, or is malformed.
    InvalidLiteral,
    /// Something other than a basic literal stands where a constant is needed.
    ComplexConstant,
    /// A name that is used as a type is bound to something else.
    NotAType,
    /// A method is declared for a receiver that is no struct.
    NotAStruct,
    /// A result is returned for which the function has no local slot.
    NoResultSlot,
    /// `...T` stands elsewhere than as the type of the last parameter.
    MisplacedVariadic,
}

/// The kinds of failure.
#[derive(Clone, Copy, Debug, PartialEq, Eq, Structural)]
pub enum ErrorKind {
    /// The identifier has no entity and is no built-in.
    Undefined,
    /// So many targets, so many values, and no rule to match them.
    AssignMismatch(usize, usize),
    Type(TypeError),
    NotImplemented,
    /// A jump offset, an index or a count does not fit a data word.
    Overflow,
}

/// A failure with the source position it is reported at.
#[derive(Clone, Copy, Debug, PartialEq, Eq, Structural)]
pub struct GenError {
    pub pos: usize,
    pub kind: ErrorKind,
}

/// The least position in an association list that has the key.
pub open spec fn assoc_position<K, V>(s: Seq<(K, V)>, key: K) -> Option<int>
    decreases s.len(),
{
    if s.len() == 0 {
        None
    } else if s[0].0 == key {
        Some(0int)
    } else {
        match assoc_position(s.drop_first(), key) {
            Some(i) => Some(i + 1),
            None => None,
        }
    }
}

/// The value of the first entry of an association list that has the key.
pub open spec fn assoc_find<K, V>(s: Seq<(K, V)>, key: K) -> Option<V> {
    match assoc_position(s, key) {
        Some(i) => Some(s[i].1),
        None => None,
    }
}

/// `assoc_position` is the least index with the key, and `None` only where no
/// entry has it.
pub proof fn lemma_assoc_position<K, V>(s: Seq<(K, V)>, key: K)
    ensures
        match assoc_position(s, key) {
            Some(i) => 0 <= i < s.len() && s[i].0 == key && forall|j: int|
                0 <= j < i ==> (#[trigger] s[j]).0 != key,
            None => forall|j: int| 0 <= j < s.len() ==> (#[trigger] s[j]).0 != key,
        },
    decreases s.len(),
{
    if s.len() == 0 {
    } else if s[0].0 == key {
    } else {
        let t = s.drop_first();
        lemma_assoc_position(t, key);
        assert(forall|j: int| 0 <= j < t.len() ==> t[j] == s[j + 1]);
        match assoc_position(t, key) {
            Some(i) => {
                assert forall|j: int| 0 <= j < i + 1 implies (#[trigger] s[j]).0 != key by {
                    if j > 0 {
                        assert(s[j] == t[j - 1]);
                    }
                }
            },
            None => {
                assert forall|j: int| 0 <= j < s.len() implies (#[trigger] s[j]).0 != key by {
                    if j > 0 {
                        assert(s[j] == t[j - 1]);
                    }
                }
            },
        }
    }
}

/// The position is the one that `assoc_position` gives where it holds the key
/// and nothing before it does.
pub proof fn lemma_assoc_position_is<K, V>(s: Seq<(K, V)>, key: K, i: int)
    requires
        0 <= i < s.len(),
        s[i].0 == key,
        forall|j: int| 0 <= j < i ==> (#[trigger] s[j]).0 != key,
    ensures
        assoc_position(s, key) == Some(i),
{
    lemma_assoc_position(s, key);
}

/// Appending an entry changes no lookup of a key that the list has, and
/// answers the new key where the list lacks it.
pub proof fn lemma_assoc_push<K, V>(s: Seq<(K, V)>, entry: (K, V), key: K)
    ensures
        assoc_position(s, key) is Some ==> assoc_position(s.push(entry), key) == assoc_position(
            s,
            key,
        ),
        assoc_position(s, key) is None && entry.0 == key ==> assoc_position(s.push(entry), key)
            == Some(s.len() as int),
        assoc_position(s, key) is None && entry.0 != key ==> assoc_position(s.push(entry), key)
            is None,
{
    lemma_assoc_position(s, key);
    lemma_assoc_position(s.push(entry), key);
    let t = s.push(entry);
    assert(forall|j: int| 0 <= j < s.len() ==> t[j] == s[j]);
    match assoc_position(s, key) {
        Some(i) => {
            assert(t[i] == s[i]);
            lemma_assoc_position_is(t, key, i);
        },
        None => {
            if entry.0 == key {
                lemma_assoc_position_is(t, key, s.len() as int);
            } else {
                if assoc_position(t, key) is Some {
                    let i = assoc_position(t, key)->Some_0;
                    assert(t[i].0 == key);
                    if i < s.len() {
                        assert(s[i].0 != key);
                    }
                }
            }
        },
    }
}

/// Finds the least position of a key in an association list.
pub fn assoc_pos<V>(v: &Vec<(u64, V)>, key: u64) -> (r: Option<usize>)
    ensures
        match r {
            Some(i) => i < v.len() && assoc_position(v@, key) == Some(i as int),
            None => assoc_position(v@, key) is None,
        },
{
    let mut i: usize = 0;
    while i < v.len()
        invariant
            i <= v.len(),
            forall|j: int| 0 <= j < i ==> (#[trigger] v@[j]).0 != key,
        decreases v.len() - i,
    {
        if v[i].0 == key {
            proof {
                lemma_assoc_position_is(v@, key, i as int);
            }
            return Some(i);
        }
        i = i + 1;
    }
    proof {
        lemma_assoc_position(v@, key);
    }
    None
}

/// Looks a key up in an association list.
pub fn assoc_get<V: Copy>(v: &Vec<(u64, V)>, key: u64) -> (r: Option<V>)
    ensures
        r == assoc_find(v@, key),
{
    match assoc_pos(v, key) {
        Some(i) => Some(v[i].1),
        None => None,
    }
}

impl EntIndex {
    /// The tag and number that encode the address in `LOAD` and `STORE`.
    pub open spec fn spec_words(self) -> (i16, i16) {
        match self {
            EntIndex::LocalVar(i) => (TAG_LOCAL, i),
            EntIndex::UpValue(i) => (TAG_UPVALUE, i),
            EntIndex::PackageMember(i) => (TAG_PKG_MEMBER, i),
            EntIndex::Const(i) => (TAG_CONST, i),
            EntIndex::BuiltIn(op) => (TAG_BUILT_IN, op.spec_index()),
            EntIndex::Blank => (TAG_BLANK, 0i16),
        }
    }

    #[verifier::when_used_as_spec(spec_words)]
    pub fn words(self) -> (r: (i16, i16))
        ensures
            r == self.spec_words(),
    {
        match self {
            EntIndex::LocalVar(i) => (TAG_LOCAL, i),
            EntIndex::UpValue(i) => (TAG_UPVALUE, i),
            EntIndex::PackageMember(i) => (TAG_PKG_MEMBER, i),
            EntIndex::Const(i) => (TAG_CONST, i),
            EntIndex::BuiltIn(op) => (TAG_BUILT_IN, op.index()),
            EntIndex::Blank => (TAG_BLANK, 0),
        }
    }
}

impl LeftHandSide {
    /// The tag and number that encode the target in `STORE`.
    pub open spec fn spec_words(self) -> (i16, i16) {
        match self {
            LeftHandSide::Primitive(idx) => idx.spec_words(),
            LeftHandSide::IndexSelExpr(off) => (TAG_INDEX_SEL, off),
            LeftHandSide::Deref(off) => (TAG_DEREF, off),
        }
    }

    #[verifier::when_used_as_spec(spec_words)]
    pub fn words(self) -> (r: (i16, i16))
        ensures
            r == self.spec_words(),
    {
        match self {
            LeftHandSide::Primitive(idx) => idx.words(),
            LeftHandSide::IndexSelExpr(off) => (TAG_INDEX_SEL, off),
            LeftHandSide::Deref(off) => (TAG_DEREF, off),
        }
    }

    /// How many stack words preparing the target pushes.
    pub open spec fn spec_prep_words(self) -> int {
        match self {
            LeftHandSide::Primitive(_) => 0,
            LeftHandSide::IndexSelExpr(_) => 2,
            LeftHandSide::Deref(_) => 1,
        }
    }
}

} // verus!

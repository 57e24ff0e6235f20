//! A function under construction: its code, constants, locals and upvalues.

use vstd::prelude::*;
use crate::opcode::{CodeWord, NO_OP, Opcode, TAG_CONST, TAG_LOCAL, TAG_PKG_MEMBER, TAG_UPVALUE};
use crate::value::{
    assoc_find, assoc_get, assoc_pos, assoc_position, EntIndex, EntityKey, LeftHandSide,
    lemma_assoc_position, lemma_assoc_push, PackageKey, TypeKey, UpValue, Value,
};

verus! {

/// A compiled function, or one that is being compiled.
pub struct Function {
    package: Option<PackageKey>,
    typ: TypeKey,
    variadic: bool,
    is_ctor: bool,
    param_count: usize,
    ret_count: usize,
    local_alloc: usize,
    code: Vec<CodeWord>,
    consts: Vec<Value>,
    entities: Vec<(EntityKey, EntIndex)>,
    upvalues: Vec<(EntityKey, UpValue)>,
}

/// What a `Function` holds, as mathematical values.
pub struct FunctionView {
    pub package: Option<PackageKey>,
    pub typ: TypeKey,
    pub variadic: bool,
    pub is_ctor: bool,
    pub param_count: nat,
    pub ret_count: nat,
    /// How many local slots are allocated.
    pub local_alloc: nat,
    pub code: Seq<CodeWord>,
    pub consts: Seq<Value>,
    /// The names bound in this function, each with its local slot or constant.
    pub entities: Seq<(EntityKey, EntIndex)>,
    /// The captured variables, each with the name it was captured under.
    pub upvalues: Seq<(EntityKey, UpValue)>,
}

impl View for Function {
    type V = FunctionView;

    closed spec fn view(&self) -> FunctionView {
        FunctionView {
            package: self.package,
            typ: self.typ,
            variadic: self.variadic,
            is_ctor: self.is_ctor,
            param_count: self.param_count as nat,
            ret_count: self.ret_count as nat,
            local_alloc: self.local_alloc as nat,
            code: self.code@,
            consts: self.consts@,
            entities: self.entities@,
            upvalues: self.upvalues@,
        }
    }
}

/// The data word at a position, 0 where an opcode stands there.
pub open spec fn data_at(code: Seq<CodeWord>, i: int) -> int {
    match code[i] {
        CodeWord::Data(d) => d as int,
        CodeWord::Code(_) => 0,
    }
}

/// The word that the jump whose opcode stands at `at` aims at: the offset is
/// counted from the word after its data word.
pub open spec fn jump_target(code: Seq<CodeWord>, at: int) -> int {
    at + 2 + data_at(code, at + 1)
}

/// The jump at `at` is complete and aims at an opcode, or at the end of the
/// code, where the next instruction will begin.
pub open spec fn jump_ok(code: Seq<CodeWord>, at: int) -> bool {
    &&& at + 1 < code.len()
    &&& code[at + 1] is Data
    &&& 0 <= jump_target(code, at) <= code.len()
    &&& jump_target(code, at) < code.len() ==> code[jump_target(code, at)] is Code
}

/// Every jump in the code is in order.
pub open spec fn jumps_ok(code: Seq<CodeWord>) -> bool {
    forall|at: int|
        0 <= at < code.len() && (#[trigger] code[at]) is Code && code[at]->Code_0.spec_is_jump()
            ==> jump_ok(code, at)
}

/// Every jump in the code aims at an opcode inside the code.
pub open spec fn jumps_closed(code: Seq<CodeWord>) -> bool {
    forall|at: int|
        0 <= at < code.len() && (#[trigger] code[at]) is Code && code[at]->Code_0.spec_is_jump()
            ==> jump_ok(code, at) && jump_target(code, at) < code.len()
}

/// The address names a slot that the function has.
pub open spec fn index_ok(f: FunctionView, idx: EntIndex) -> bool {
    match idx {
        EntIndex::LocalVar(i) => 0 <= i < f.local_alloc,
        EntIndex::UpValue(i) => 0 <= i < f.upvalues.len(),
        EntIndex::Const(i) => 0 <= i < f.consts.len(),
        _ => true,
    }
}

/// The address is one that a name can be bound to: a local or a constant
/// that the function has.
pub open spec fn bindable(f: FunctionView, idx: EntIndex) -> bool {
    index_ok(f, idx) && (idx is LocalVar || idx is Const)
}

/// The `LOAD` or `STORE` at `at` is complete, and where it names a local, an
/// upvalue or a constant, the function has that slot.
pub open spec fn access_ok(f: FunctionView, at: int) -> bool {
    &&& at + 2 < f.code.len()
    &&& f.code[at + 1] is Data
    &&& f.code[at + 2] is Data
    &&& data_at(f.code, at + 1) == TAG_LOCAL ==> 0 <= data_at(f.code, at + 2) < f.local_alloc
    &&& data_at(f.code, at + 1) == TAG_UPVALUE ==> 0 <= data_at(f.code, at + 2) < f.upvalues.len()
    &&& data_at(f.code, at + 1) == TAG_CONST ==> 0 <= data_at(f.code, at + 2) < f.consts.len()
}

/// Every `LOAD` and `STORE` of the function is in order.
pub open spec fn accesses_ok(f: FunctionView) -> bool {
    forall|at: int|
        0 <= at < f.code.len() && ((#[trigger] f.code[at]) == CodeWord::Code(Opcode::LOAD)
            || f.code[at] == CodeWord::Code(Opcode::STORE)) ==> access_ok(f, at)
}

/// Whether a word is the opcode of a `LOAD` or a `STORE`.
pub open spec fn is_access(w: CodeWord) -> bool {
    w == CodeWord::Code(Opcode::LOAD) || w == CodeWord::Code(Opcode::STORE)
}

/// Every `LOAD` and `STORE` that names a member of the package names one of
/// its first `n` members.
pub open spec fn member_accesses_ok(code: Seq<CodeWord>, n: int) -> bool {
    forall|at: int|
        0 <= at && at + 2 < code.len() && is_access(#[trigger] code[at]) && data_at(code, at + 1)
            == TAG_PKG_MEMBER ==> 0 <= data_at(code, at + 2) < n
}

/// The words are whole instructions as far as they are `LOAD` and `STORE`,
/// and those that name a member of the package name one of its first `n`
/// members.
pub open spec fn member_words_ok(words: Seq<CodeWord>, n: int) -> bool {
    &&& member_accesses_ok(words, n)
    &&& forall|k: int| 0 <= k < words.len() && is_access(#[trigger] words[k]) ==> k + 2 < words.len()
}

/// The function's tables are consistent and its code is in order.
pub open spec fn function_wf(f: FunctionView) -> bool {
    &&& f.consts.len() <= i16::MAX
    &&& f.upvalues.len() <= i16::MAX
    &&& f.local_alloc <= i16::MAX
    &&& f.param_count + f.ret_count <= f.local_alloc
    &&& forall|k: int| 0 <= k < f.entities.len() ==> bindable(f, (#[trigger] f.entities[k]).1)
    &&& jumps_ok(f.code)
    &&& accesses_ok(f)
}

/// `b` is `a` after more work: what `a` held is still there, at its place,
/// and the code that came after it begins with an opcode.
pub open spec fn function_extends(a: FunctionView, b: FunctionView) -> bool {
    &&& b.package == a.package
    &&& b.typ == a.typ
    &&& b.variadic == a.variadic
    &&& b.is_ctor == a.is_ctor
    &&& b.param_count == a.param_count
    &&& b.ret_count == a.ret_count
    &&& a.local_alloc <= b.local_alloc
    &&& a.code.is_prefix_of(b.code)
    &&& a.code.len() < b.code.len() ==> b.code[a.code.len() as int] is Code
    &&& a.consts.is_prefix_of(b.consts)
    &&& a.entities.is_prefix_of(b.entities)
    &&& a.upvalues.is_prefix_of(b.upvalues)
}

/// The code words of a load from the address.
pub open spec fn load_words(idx: EntIndex) -> Seq<CodeWord> {
    match idx {
        EntIndex::BuiltIn(op) => seq![CodeWord::Code(op)],
        _ => seq![
            CodeWord::Code(Opcode::LOAD),
            CodeWord::Data(idx.spec_words().0),
            CodeWord::Data(idx.spec_words().1),
        ],
    }
}

/// The code words of a store to the target, of the value `val_off` words from
/// the top of the stack, combined by `op` with what the target holds.
pub open spec fn store_words(lhs: LeftHandSide, val_off: i16, op: Option<Opcode>) -> Seq<CodeWord> {
    seq![
        CodeWord::Code(Opcode::STORE),
        CodeWord::Data(lhs.spec_words().0),
        CodeWord::Data(lhs.spec_words().1),
        CodeWord::Data(val_off),
        CodeWord::Data(
            match op {
                Some(o) => o.spec_index(),
                None => NO_OP,
            },
        ),
    ]
}

/// The first position of a value in a sequence.
pub open spec fn first_index_of(s: Seq<Value>, v: Value) -> Option<int>
    decreases s.len(),
{
    if s.len() == 0 {
        None
    } else if s[0] == v {
        Some(0int)
    } else {
        match first_index_of(s.drop_first(), v) {
            Some(i) => Some(i + 1),
            None => None,
        }
    }
}

/// Whether the offset of a jump at `at` to `target` fits a data word.
pub open spec fn offset_fits(at: int, target: int) -> bool {
    i16::MIN <= target - (at + 2) <= i16::MAX
}

impl FunctionView {
    /// The function after the words are appended to its code.
    pub open spec fn emit(self, words: Seq<CodeWord>) -> FunctionView {
        FunctionView { code: self.code + words, ..self }
    }

    /// The function after the data word of the jump at `at` is set so that
    /// the jump aims at `target`.
    pub open spec fn patch(self, at: int, target: int) -> FunctionView {
        FunctionView {
            code: self.code.update(at + 1, CodeWord::Data((target - (at + 2)) as i16)),
            ..self
        }
    }

    /// The address that the name is bound to in this function, if any.
    pub open spec fn entity_index(self, entity: EntityKey) -> Option<EntIndex> {
        assoc_find(self.entities, entity)
    }

    /// The function with the name bound to the address, unless the name is bound already.
    pub open spec fn bind(self, entity: Option<EntityKey>, idx: EntIndex) -> FunctionView {
        match entity {
            Some(e) => if self.entity_index(e) is None {
                FunctionView { entities: self.entities.push((e, idx)), ..self }
            } else {
                self
            },
            None => self,
        }
    }

    /// The slot of a constant: where the value stands in the pool already, or
    /// the slot that it gets at the end of the pool.
    pub open spec fn const_slot(self, cst: Value) -> int {
        match first_index_of(self.consts, cst) {
            Some(i) => i,
            None => self.consts.len() as int,
        }
    }

    /// Registers a constant: the value is added to the pool unless it is
    /// there, and a name given with it is bound to its slot. `None` when the
    /// pool is full.
    pub open spec fn add_const(self, entity: Option<EntityKey>, cst: Value) -> Option<
        (FunctionView, EntIndex),
    > {
        let slot = self.const_slot(cst);
        if slot >= i16::MAX {
            None
        } else {
            let pool = if slot == self.consts.len() {
                self.consts.push(cst)
            } else {
                self.consts
            };
            let idx = EntIndex::Const(slot as i16);
            Some((FunctionView { consts: pool, ..self }.bind(entity, idx), idx))
        }
    }

    /// Allocates a local slot for a name. A name that is bound already keeps
    /// its address and no slot is allocated. `None` when no slot is left.
    pub open spec fn add_local(
        self,
        entity: Option<EntityKey>,
    ) -> Option<(FunctionView, EntIndex)> {
        if entity is Some && self.entity_index(entity->Some_0) is Some {
            Some((self, self.entity_index(entity->Some_0)->Some_0))
        } else if self.local_alloc >= i16::MAX {
            None
        } else {
            let idx = EntIndex::LocalVar(self.local_alloc as i16);
            Some(
                (
                    FunctionView { local_alloc: self.local_alloc + 1, ..self }.bind(entity, idx),
                    idx,
                ),
            )
        }
    }

    /// Captures a variable under a name, or finds the capture made under that
    /// name before. `None` when no slot is left.
    pub open spec fn try_add_upvalue(self, entity: EntityKey, uv: UpValue) -> Option<
        (FunctionView, EntIndex),
    > {
        match assoc_position(self.upvalues, entity) {
            Some(i) => Some((self, EntIndex::UpValue(i as i16))),
            None => if self.upvalues.len() >= i16::MAX {
                None
            } else {
                Some(
                    (
                        FunctionView { upvalues: self.upvalues.push((entity, uv)), ..self },
                        EntIndex::UpValue(self.upvalues.len() as i16),
                    ),
                )
            },
        }
    }
}

pub proof fn lemma_first_index_of(s: Seq<Value>, v: Value)
    ensures
        match first_index_of(s, v) {
            Some(i) => 0 <= i < s.len() && s[i] == v && forall|j: int| 0 <= j < i ==> s[j] != v,
            None => forall|j: int| 0 <= j < s.len() ==> s[j] != v,
        },
    decreases s.len(),
{
    if s.len() == 0 {
    } else if s[0] == v {
    } else {
        let t = s.drop_first();
        lemma_first_index_of(t, v);
        assert(forall|j: int| 0 <= j < t.len() ==> t[j] == s[j + 1]);
        match first_index_of(t, v) {
            Some(i) => {
                assert forall|j: int| 0 <= j < i + 1 implies s[j] != v by {
                    if j > 0 {
                        assert(t[j - 1] == s[j]);
                    }
                }
            },
            None => {
                assert forall|j: int| 0 <= j < s.len() implies s[j] != v by {
                    if j > 0 {
                        assert(t[j - 1] == s[j]);
                    }
                }
            },
        }
    }
}

/// Appending whole instructions keeps the jumps in order, where the appended
/// words begin with an opcode and every jump among them is in order.
pub proof fn lemma_jumps_ok_append(code: Seq<CodeWord>, words: Seq<CodeWord>)
    requires
        jumps_ok(code),
        words.len() > 0,
        words[0] is Code,
        forall|k: int|
            0 <= k < words.len() && (#[trigger] words[k]) is Code
                && words[k]->Code_0.spec_is_jump() ==> jump_ok(code + words, code.len() + k),
    ensures
        jumps_ok(code + words),
{
    let all = code + words;
    assert forall|at: int|
        0 <= at < all.len() && (#[trigger] all[at]) is Code
            && all[at]->Code_0.spec_is_jump() implies jump_ok(all, at) by {
        if at < code.len() {
            assert(all[at] == code[at]);
            assert(jump_ok(code, at));
            assert(all[at + 1] == code[at + 1]);
            let t = jump_target(code, at);
            assert(jump_target(all, at) == t);
            if t < code.len() {
                assert(all[t] == code[t]);
            } else {
                assert(all[t] == words[0]);
            }
        } else {
            assert(all[at] == words[at - code.len()]);
        }
    }
}

/// Setting the data word of a jump keeps the jumps in order, where the jump
/// then aims at an opcode or at the end.
pub proof fn lemma_jumps_ok_patch(code: Seq<CodeWord>, at: int, d: i16)
    requires
        jumps_ok(code),
        0 <= at,
        at + 1 < code.len(),
        code[at] is Code,
        code[at + 1] is Data,
        0 <= at + 2 + d <= code.len(),
        at + 2 + d < code.len() ==> code[at + 2 + d] is Code,
    ensures
        jumps_ok(code.update(at + 1, CodeWord::Data(d))),
{
    let new = code.update(at + 1, CodeWord::Data(d));
    assert forall|k: int|
        0 <= k < new.len() && (#[trigger] new[k]) is Code
            && new[k]->Code_0.spec_is_jump() implies jump_ok(new, k) by {
        assert(k != at + 1);
        assert(new[k] == code[k]);
        assert(jump_ok(code, k));
        if k == at {
        } else {
            assert(code[k + 1] is Data);
            assert(k + 1 != at + 1);
            assert(new[k + 1] == code[k + 1]);
            let t = jump_target(code, k);
            if t < code.len() {
                assert(new[t] is Code);
            }
        }
    }
}

/// Appended instructions keep a function in order.
pub proof fn lemma_emit_wf(a: FunctionView, words: Seq<CodeWord>)
    requires
        function_wf(a),
        words.len() > 0,
        words[0] is Code,
        forall|k: int|
            0 <= k < words.len() && (#[trigger] words[k]) is Code
                && words[k]->Code_0.spec_is_jump() ==> jump_ok(a.code + words, a.code.len() + k),
        forall|k: int|
            0 <= k < words.len() && ((#[trigger] words[k]) == CodeWord::Code(Opcode::LOAD)
                || words[k] == CodeWord::Code(Opcode::STORE)) ==> access_ok(
                a.emit(words),
                a.code.len() + k,
            ),
    ensures
        function_wf(a.emit(words)),
{
    let b = a.emit(words);
    lemma_jumps_ok_append(a.code, words);
    assert forall|at: int|
        0 <= at < b.code.len() && ((#[trigger] b.code[at]) == CodeWord::Code(Opcode::LOAD)
            || b.code[at] == CodeWord::Code(Opcode::STORE)) implies access_ok(b, at) by {
        if at < a.code.len() {
            assert(b.code[at] == a.code[at]);
            assert(access_ok(a, at));
            assert(b.code[at + 1] == a.code[at + 1]);
            assert(b.code[at + 2] == a.code[at + 2]);
        } else {
            assert(b.code[at] == words[at - a.code.len()]);
        }
    }
    assert forall|k: int| 0 <= k < b.entities.len() implies bindable(
        b,
        (#[trigger] b.entities[k]).1,
    ) by {
        assert(bindable(a, a.entities[k].1));
    }
}

/// A function whose tables have grown, with its code as it was, is in order.
pub proof fn lemma_grow_wf(a: FunctionView, b: FunctionView)
    requires
        function_wf(a),
        b.code == a.code,
        b.param_count == a.param_count,
        b.ret_count == a.ret_count,
        a.consts.len() <= b.consts.len() <= i16::MAX,
        a.local_alloc <= b.local_alloc <= i16::MAX,
        a.upvalues.len() <= b.upvalues.len() <= i16::MAX,
        forall|k: int| 0 <= k < b.entities.len() ==> bindable(b, (#[trigger] b.entities[k]).1),
    ensures
        function_wf(b),
{
    assert forall|at: int|
        0 <= at < b.code.len() && ((#[trigger] b.code[at]) == CodeWord::Code(Opcode::LOAD)
            || b.code[at] == CodeWord::Code(Opcode::STORE)) implies access_ok(b, at) by {
        assert(access_ok(a, at));
    }
}

/// Binding a name to an address of the function keeps the function in order.
pub proof fn lemma_bind_wf(a: FunctionView, entity: Option<EntityKey>, idx: EntIndex)
    requires
        function_wf(a),
        bindable(a, idx),
    ensures
        function_wf(a.bind(entity, idx)),
        function_extends(a, a.bind(entity, idx)),
        forall|x: EntIndex| index_ok(a, x) ==> index_ok(a.bind(entity, idx), x),
{
    let b = a.bind(entity, idx);
    assert forall|k: int| 0 <= k < b.entities.len() implies bindable(
        b,
        (#[trigger] b.entities[k]).1,
    ) by {
        if k < a.entities.len() {
            assert(b.entities[k] == a.entities[k]);
            assert(bindable(a, a.entities[k].1));
        }
    }
    lemma_grow_wf(a, b);
}

/// Registering the same name and value twice gives the same slot, and the
/// second time changes nothing.
pub proof fn lemma_add_const_idempotent(f: FunctionView, entity: Option<EntityKey>, cst: Value)
    requires
        f.add_const(entity, cst) is Some,
    ensures
        ({
            let first = f.add_const(entity, cst)->Some_0;
            first.0.add_const(entity, cst) == Some(first)
        }),
{
    let first = f.add_const(entity, cst)->Some_0;
    let slot = f.const_slot(cst);
    let pooled = FunctionView {
        consts: if slot == f.consts.len() {
            f.consts.push(cst)
        } else {
            f.consts
        },
        ..f
    };
    let g = first.0;
    assert(g.consts == pooled.consts);
    lemma_first_index_of(f.consts, cst);
    lemma_first_index_of(g.consts, cst);
    assert(g.const_slot(cst) == slot) by {
        if slot == f.consts.len() {
            assert(g.consts[slot] == cst);
            assert(forall|j: int| 0 <= j < slot ==> g.consts[j] == f.consts[j]);
        }
    }
    let again = FunctionView { consts: g.consts, ..g };
    assert(again == g);
    match entity {
        Some(e) => {
            if f.entity_index(e) is None {
                lemma_assoc_push(f.entities, (e, first.1), e);
                assert(g.entity_index(e) is Some);
            }
        },
        None => {},
    }
}

/// Work after work is more work.
pub proof fn lemma_function_extends_trans(a: FunctionView, b: FunctionView, c: FunctionView)
    requires
        function_extends(a, b),
        function_extends(b, c),
    ensures
        function_extends(a, c),
        forall|x: EntIndex| index_ok(a, x) ==> index_ok(c, x),
{
    if a.code.len() < c.code.len() {
        if a.code.len() < b.code.len() {
            assert(c.code[a.code.len() as int] == b.code[a.code.len() as int]);
        }
    }
}

/// A function with whole instructions appended is the function after more work.
pub proof fn lemma_emit_extends(a: FunctionView, words: Seq<CodeWord>)
    requires
        words.len() > 0 ==> words[0] is Code,
    ensures
        function_extends(a, a.emit(words)),
{
    let b = a.emit(words);
    if words.len() > 0 {
        assert(b.code[a.code.len() as int] == words[0]);
    }
}

/// A function whose jumps are in order and whose code ends with an opcode
/// that was emitted last has every jump aim at an opcode inside its code.
pub proof fn lemma_seal(code: Seq<CodeWord>, word: CodeWord)
    requires
        jumps_ok(code),
        word is Code,
        !word->Code_0.spec_is_jump(),
    ensures
        jumps_closed(code.push(word)),
{
    let all = code.push(word);
    assert forall|at: int|
        0 <= at < all.len() && (#[trigger] all[at]) is Code
            && all[at]->Code_0.spec_is_jump() implies jump_ok(all, at) && jump_target(all, at)
        < all.len() by {
        assert(at < code.len());
        assert(all[at] == code[at]);
        assert(jump_ok(code, at));
        assert(all[at + 1] == code[at + 1]);
        let t = jump_target(code, at);
        if t < code.len() {
            assert(all[t] == code[t]);
        }
    }
}

/// The same where the code ends with an opcode and its data word, and the
/// opcode is no jump.
pub proof fn lemma_seal_inst(code: Seq<CodeWord>, op: Opcode, d: i16)
    requires
        jumps_ok(code),
        !op.spec_is_jump(),
    ensures
        jumps_closed(code.push(CodeWord::Code(op)).push(CodeWord::Data(d))),
{
    let all = code.push(CodeWord::Code(op)).push(CodeWord::Data(d));
    assert forall|at: int|
        0 <= at < all.len() && (#[trigger] all[at]) is Code
            && all[at]->Code_0.spec_is_jump() implies jump_ok(all, at) && jump_target(all, at)
        < all.len() by {
        assert(at < code.len());
        assert(all[at] == code[at]);
        assert(jump_ok(code, at));
        assert(all[at + 1] == code[at + 1]);
        let t = jump_target(code, at);
        if t < code.len() {
            assert(all[t] == code[t]);
        }
    }
}

/// Appended instructions keep the accesses to members of the package in order.
pub proof fn lemma_member_accesses_append(f: FunctionView, words: Seq<CodeWord>, n: int)
    requires
        function_wf(f),
        member_accesses_ok(f.code, n),
        member_words_ok(words, n),
    ensures
        member_accesses_ok(f.code + words, n),
{
    let all = f.code + words;
    assert forall|at: int|
        0 <= at && at + 2 < all.len() && is_access(#[trigger] all[at]) && data_at(all, at + 1)
            == TAG_PKG_MEMBER implies 0 <= data_at(all, at + 2) < n by {
        if at < f.code.len() {
            assert(all[at] == f.code[at]);
            assert(access_ok(f, at));
            assert(all[at + 1] == f.code[at + 1]);
            assert(all[at + 2] == f.code[at + 2]);
        } else {
            let k = at - f.code.len();
            assert(all[at] == words[k]);
            assert(all[at + 1] == words[k + 1]);
            assert(all[at + 2] == words[k + 2]);
        }
    }
}

/// Setting the data word of a jump keeps the accesses to members of the
/// package in order.
pub proof fn lemma_member_accesses_patch(f: FunctionView, at: int, d: i16, n: int)
    requires
        function_wf(f),
        member_accesses_ok(f.code, n),
        0 <= at,
        at + 1 < f.code.len(),
        f.code[at] is Code,
        f.code[at]->Code_0.spec_is_jump(),
        f.code[at + 1] is Data,
    ensures
        member_accesses_ok(f.code.update(at + 1, CodeWord::Data(d)), n),
{
    let new = f.code.update(at + 1, CodeWord::Data(d));
    assert forall|k: int|
        0 <= k && k + 2 < new.len() && is_access(#[trigger] new[k]) && data_at(new, k + 1)
            == TAG_PKG_MEMBER implies 0 <= data_at(new, k + 2) < n by {
        assert(k != at + 1);
        assert(new[k] == f.code[k]);
        assert(access_ok(f, k));
        assert(k != at);
        assert(k + 1 != at);
    }
}

/// What is in order for `n` members is in order for more.
pub proof fn lemma_member_accesses_more(code: Seq<CodeWord>, n: int, more: int)
    requires
        member_accesses_ok(code, n),
        n <= more,
    ensures
        member_accesses_ok(code, more),
{
}

/// The offset of a jump whose opcode stands at `at` to `target`, where it
/// fits a data word.
pub fn jump_offset(at: usize, target: usize) -> (r: Option<i16>)
    ensures
        r is Some == offset_fits(at as int, target as int),
        r is Some ==> r->Some_0 == target - (at + 2),
{
    let d: i128 = target as i128 - (at as i128 + 2);
    if -32768 <= d && d <= 32767 {
        Some(d as i16)
    } else {
        None
    }
}

/// Finds the first position of a value.
pub fn value_pos(v: &Vec<Value>, x: Value) -> (r: Option<usize>)
    ensures
        match r {
            Some(i) => i < v.len() && first_index_of(v@, x) == Some(i as int),
            None => first_index_of(v@, x) is None,
        },
{
    let mut i: usize = 0;
    while i < v.len()
        invariant
            i <= v.len(),
            forall|j: int| 0 <= j < i ==> v@[j] != x,
        decreases v.len() - i,
    {
        if v[i] == x {
            proof {
                lemma_first_index_of(v@, x);
            }
            return Some(i);
        }
        i = i + 1;
    }
    proof {
        lemma_first_index_of(v@, x);
    }
    None
}

impl Function {
    /// Whether the function's tables are consistent and its code is in order.
    pub open spec fn wf(&self) -> bool {
        function_wf(self@)
    }

    /// An empty function of the package, with the type and the flags given.
    pub fn new(package: Option<PackageKey>, typ: TypeKey, variadic: bool, is_ctor: bool) -> (f:
        Function)
        ensures
            f.wf(),
            f@ == (FunctionView {
                package,
                typ,
                variadic,
                is_ctor,
                param_count: 0,
                ret_count: 0,
                local_alloc: 0,
                code: Seq::empty(),
                consts: Seq::empty(),
                entities: Seq::empty(),
                upvalues: Seq::empty(),
            }),
    {
        Function {
            package,
            typ,
            variadic,
            is_ctor,
            param_count: 0,
            ret_count: 0,
            local_alloc: 0,
            code: Vec::new(),
            consts: Vec::new(),
            entities: Vec::new(),
            upvalues: Vec::new(),
        }
    }

    pub fn code(&self) -> (r: &Vec<CodeWord>)
        ensures
            r@ == self@.code,
    {
        &self.code
    }

    pub fn consts(&self) -> (r: &Vec<Value>)
        ensures
            r@ == self@.consts,
    {
        &self.consts
    }

    pub fn entities(&self) -> (r: &Vec<(EntityKey, EntIndex)>)
        ensures
            r@ == self@.entities,
    {
        &self.entities
    }

    pub fn upvalues(&self) -> (r: &Vec<(EntityKey, UpValue)>)
        ensures
            r@ == self@.upvalues,
    {
        &self.upvalues
    }

    pub fn package(&self) -> (r: Option<PackageKey>)
        ensures
            r == self@.package,
    {
        self.package
    }

    pub fn typ(&self) -> (r: TypeKey)
        ensures
            r == self@.typ,
    {
        self.typ
    }

    pub fn is_ctor(&self) -> (r: bool)
        ensures
            r == self@.is_ctor,
    {
        self.is_ctor
    }

    pub fn variadic(&self) -> (r: bool)
        ensures
            r == self@.variadic,
    {
        self.variadic
    }

    pub fn param_count(&self) -> (r: usize)
        ensures
            r == self@.param_count,
    {
        self.param_count
    }

    pub fn ret_count(&self) -> (r: usize)
        ensures
            r == self@.ret_count,
    {
        self.ret_count
    }

    /// How many local slots are allocated, parameters and results included.
    pub fn local_alloc(&self) -> (r: usize)
        ensures
            r == self@.local_alloc,
    {
        self.local_alloc
    }

    /// The address that a name is bound to in this function.
    pub fn entity_index(&self, entity: EntityKey) -> (r: Option<EntIndex>)
        ensures
            r == self@.entity_index(entity),
            self.wf() && r is Some ==> bindable(self@, r->Some_0),
    {
        let r = assoc_get(&self.entities, entity);
        proof {
            lemma_assoc_position(self.entities@, entity);
        }
        r
    }

    /// The constant in a slot of the pool.
    pub fn const_val(&self, i: i16) -> (r: Value)
        requires
            0 <= i < self@.consts.len(),
        ensures
            r == self@.consts[i as int],
    {
        self.consts[i as usize]
    }

    /// Records how many of the local slots are results and parameters.
    pub fn set_counts(&mut self, ret_count: usize, param_count: usize)
        requires
            old(self).wf(),
            ret_count + param_count <= old(self)@.local_alloc,
        ensures
            final(self).wf(),
            final(self)@ == (FunctionView {
                ret_count: ret_count as nat,
                param_count: param_count as nat,
                ..old(self)@
            }),
    {
        self.ret_count = ret_count;
        self.param_count = param_count;
        proof {
            let a = old(self)@;
            let b = self@;
            assert forall|at: int|
                0 <= at < b.code.len() && ((#[trigger] b.code[at]) == CodeWord::Code(Opcode::LOAD)
                    || b.code[at] == CodeWord::Code(Opcode::STORE)) implies access_ok(b, at) by {
                assert(access_ok(a, at));
            }
            assert forall|k: int| 0 <= k < b.entities.len() implies bindable(
                b,
                (#[trigger] b.entities[k]).1,
            ) by {
                assert(bindable(a, a.entities[k].1));
            }
        }
    }

    /// Appends an opcode that has no data word.
    pub fn emit_code(&mut self, op: Opcode)
        requires
            old(self).wf(),
            op.spec_operands() == 0,
        ensures
            final(self).wf(),
            final(self)@ == old(self)@.emit(seq![CodeWord::Code(op)]),
    {
        self.code.push(CodeWord::Code(op));
        proof {
            let a = old(self)@;
            let words = seq![CodeWord::Code(op)];
            assert(self@.code =~= a.code + words);
            lemma_emit_wf(a, words);
        }
    }

    /// Appends an opcode with its one data word. A jump must aim at an opcode
    /// that is there, at itself, or at the end of the code.
    pub fn emit_inst(&mut self, op: Opcode, d: i16)
        requires
            old(self).wf(),
            op.spec_operands() == 1,
            op.spec_is_jump() ==> {
                let t = old(self)@.code.len() + 2 + d;
                &&& 0 <= t <= old(self)@.code.len() + 2
                &&& t != old(self)@.code.len() + 1
                &&& t < old(self)@.code.len() ==> old(self)@.code[t] is Code
            },
        ensures
            final(self).wf(),
            final(self)@ == old(self)@.emit(seq![CodeWord::Code(op), CodeWord::Data(d)]),
    {
        self.code.push(CodeWord::Code(op));
        self.code.push(CodeWord::Data(d));
        proof {
            let a = old(self)@;
            let words = seq![CodeWord::Code(op), CodeWord::Data(d)];
            assert(self@.code =~= a.code + words);
            lemma_emit_wf(a, words);
        }
    }

    /// Appends a load from an address.
    pub fn emit_load(&mut self, idx: EntIndex)
        requires
            old(self).wf(),
            index_ok(old(self)@, idx),
            idx matches EntIndex::BuiltIn(op) ==> op.spec_operands() == 0,
        ensures
            final(self).wf(),
            final(self)@ == old(self)@.emit(load_words(idx)),
    {
        match idx {
            EntIndex::BuiltIn(op) => {
                self.code.push(CodeWord::Code(op));
            },
            _ => {
                let w = idx.words();
                self.code.push(CodeWord::Code(Opcode::LOAD));
                self.code.push(CodeWord::Data(w.0));
                self.code.push(CodeWord::Data(w.1));
            },
        }
        proof {
            let a = old(self)@;
            let words = load_words(idx);
            assert(self@.code =~= a.code + words);
            lemma_emit_wf(a, words);
        }
    }

    /// Appends a store to a target.
    pub fn emit_store(&mut self, lhs: LeftHandSide, val_off: i16, op: Option<Opcode>)
        requires
            old(self).wf(),
            lhs matches LeftHandSide::Primitive(idx) ==> index_ok(old(self)@, idx),
        ensures
            final(self).wf(),
            final(self)@ == old(self)@.emit(store_words(lhs, val_off, op)),
    {
        let w = lhs.words();
        let o: i16 = match op {
            Some(o) => o.index(),
            None => NO_OP,
        };
        self.code.push(CodeWord::Code(Opcode::STORE));
        self.code.push(CodeWord::Data(w.0));
        self.code.push(CodeWord::Data(w.1));
        self.code.push(CodeWord::Data(val_off));
        self.code.push(CodeWord::Data(o));
        proof {
            let a = old(self)@;
            let words = store_words(lhs, val_off, op);
            assert(self@.code =~= a.code + words);
            lemma_emit_wf(a, words);
        }
    }

    /// Sets the data word of the jump at `at` so that it aims at `target`.
    /// Returns `false`, and changes nothing, where the offset does not fit a
    /// data word.
    pub fn patch_jump(&mut self, at: usize, target: usize) -> (done: bool)
        requires
            old(self).wf(),
            at + 1 < old(self)@.code.len(),
            old(self)@.code[at as int] is Code,
            old(self)@.code[at as int]->Code_0.spec_is_jump(),
            old(self)@.code[at + 1] is Data,
            target <= old(self)@.code.len(),
            target < old(self)@.code.len() ==> old(self)@.code[target as int] is Code,
        ensures
            final(self).wf(),
            done == offset_fits(at as int, target as int),
            done ==> final(self)@ == old(self)@.patch(at as int, target as int),
            !done ==> final(self)@ == old(self)@,
    {
        match jump_offset(at, target) {
            Some(d) => {
                assert(at + 1 < self.code.len());
                self.code.set(at + 1, CodeWord::Data(d));
                proof {
                    let a = old(self)@;
                    let b = self@;
                    lemma_jumps_ok_patch(a.code, at as int, d);
                    assert(b.code =~= a.code.update(at + 1, CodeWord::Data(d)));
                    assert forall|k: int|
                        0 <= k < b.code.len() && ((#[trigger] b.code[k]) == CodeWord::Code(
                            Opcode::LOAD,
                        ) || b.code[k] == CodeWord::Code(Opcode::STORE)) implies access_ok(
                        b,
                        k,
                    ) by {
                        assert(k != at + 1);
                        assert(a.code[k] == b.code[k]);
                        assert(access_ok(a, k));
                        assert(k != at);
                    }
                    assert forall|k: int| 0 <= k < b.entities.len() implies bindable(
                        b,
                        (#[trigger] b.entities[k]).1,
                    ) by {
                        assert(bindable(a, a.entities[k].1));
                    }
                }
                true
            },
            None => false,
        }
    }

    /// Binds a name to an address, unless the name is bound already.
    fn bind(&mut self, entity: Option<EntityKey>, idx: EntIndex)
        requires
            old(self).wf(),
            bindable(old(self)@, idx),
        ensures
            final(self).wf(),
            final(self)@ == old(self)@.bind(entity, idx),
    {
        proof {
            lemma_bind_wf(self@, entity, idx);
        }
        match entity {
            Some(e) => {
                if assoc_get(&self.entities, e).is_none() {
                    self.entities.push((e, idx));
                }
            },
            None => {},
        }
    }

    /// Registers a constant, and binds the name given with it to its slot.
    /// The value is added to the pool unless it is there. `None`, with nothing
    /// changed, when the pool is full.
    pub fn add_const(&mut self, entity: Option<EntityKey>, cst: Value) -> (r: Option<EntIndex>)
        requires
            old(self).wf(),
        ensures
            final(self).wf(),
            function_extends(old(self)@, final(self)@),
            final(self)@.code == old(self)@.code,
            match old(self)@.add_const(entity, cst) {
                Some((f, idx)) => r == Some(idx) && final(self)@ == f,
                None => r is None && final(self)@ == old(self)@,
            },
            r is Some ==> r->Some_0 is Const && index_ok(final(self)@, r->Some_0),
    {
        let slot: usize = match value_pos(&self.consts, cst) {
            Some(i) => i,
            None => self.consts.len(),
        };
        if slot >= 32767 {
            return None;
        }
        if slot == self.consts.len() {
            self.consts.push(cst);
        }
        let idx = EntIndex::Const(slot as i16);
        proof {
            lemma_grow_wf(old(self)@, self@);
            lemma_bind_wf(self@, entity, idx);
        }
        self.bind(entity, idx);
        Some(idx)
    }

    /// Allocates a local slot for a name. A name that is bound already keeps
    /// its address, and no slot is allocated. `None`, with nothing changed,
    /// when no slot is left.
    pub fn add_local(&mut self, entity: Option<EntityKey>) -> (r: Option<EntIndex>)
        requires
            old(self).wf(),
        ensures
            final(self).wf(),
            function_extends(old(self)@, final(self)@),
            final(self)@.code == old(self)@.code,
            match old(self)@.add_local(entity) {
                Some((f, idx)) => r == Some(idx) && final(self)@ == f,
                None => r is None && final(self)@ == old(self)@,
            },
            r is Some ==> bindable(final(self)@, r->Some_0),
    {
        if let Some(e) = entity {
            if let Some(idx) = self.entity_index(e) {
                return Some(idx);
            }
        }
        if self.local_alloc >= 32767 {
            return None;
        }
        let idx = EntIndex::LocalVar(self.local_alloc as i16);
        self.local_alloc = self.local_alloc + 1;
        proof {
            lemma_grow_wf(old(self)@, self@);
            lemma_bind_wf(self@, entity, idx);
        }
        self.bind(entity, idx);
        Some(idx)
    }

    /// Captures a variable under a name, or finds the capture made under that
    /// name before. `None`, with nothing changed, when no slot is left.
    pub fn try_add_upvalue(&mut self, entity: EntityKey, uv: UpValue) -> (r: Option<EntIndex>)
        requires
            old(self).wf(),
        ensures
            final(self).wf(),
            function_extends(old(self)@, final(self)@),
            final(self)@.code == old(self)@.code,
            match old(self)@.try_add_upvalue(entity, uv) {
                Some((f, idx)) => r == Some(idx) && final(self)@ == f,
                None => r is None && final(self)@ == old(self)@,
            },
            r is Some ==> r->Some_0 is UpValue && index_ok(final(self)@, r->Some_0),
    {
        match assoc_pos(&self.upvalues, entity) {
            Some(i) => Some(EntIndex::UpValue(i as i16)),
            None => {
                if self.upvalues.len() >= 32767 {
                    return None;
                }
                let i: usize = self.upvalues.len();
                self.upvalues.push((entity, uv));
                proof {
                    let a = old(self)@;
                    let b = self@;
                    assert forall|k: int| 0 <= k < b.entities.len() implies bindable(
                        b,
                        (#[trigger] b.entities[k]).1,
                    ) by {
                        assert(bindable(a, a.entities[k].1));
                    }
                    lemma_grow_wf(a, b);
                }
                Some(EntIndex::UpValue(i as i16))
            },
        }
    }
}

} // verus!

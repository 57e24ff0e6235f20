//! The state of generation as a mathematical value, and the steps that the
//! lowering rules are built from.

use vstd::prelude::*;
use crate::ast::Ident;
use crate::func::{
    function_extends, FunctionView, index_ok, jumps_closed, load_words, member_accesses_ok,
    offset_fits,
};
use crate::objects::{objects_extends, objects_wf, ObjectsView};
use crate::opcode::{CodeWord, Opcode};
use crate::package::PackageView;
use crate::value::{
    EntIndex, EntityKey, ErrorKind, FunctionKey, GenError, PackageKey, UpValue, Value,
};

verus! {

/// A built-in function: it is lowered to an opcode of its own instead of a call.
pub struct BuiltInView {
    pub name: Seq<char>,
    pub opcode: Opcode,
    pub params_count: int,
    pub variadic: bool,
}

/// The generator's state.
#[verifier::ext_equal]
pub struct GenView {
    pub objs: ObjectsView,
    /// The index of each package that was generated, by its name.
    pub package_indices: Seq<(Seq<char>, i16)>,
    /// The packages in the order in which they were generated.
    pub package_keys: Seq<PackageKey>,
    pub current_pkg: Option<PackageKey>,
    /// The functions under construction, the innermost last.
    pub func_stack: Seq<FunctionKey>,
}

/// A failure: the state that the step left, and the error.
pub type Failure = (GenView, GenError);

/// What a step gives: the state after it with a value, or the state that
/// it left when it failed with the error.
pub type Res<T> = Result<(GenView, T), Failure>;

/// The built-in functions.
pub open spec fn built_in_funcs() -> Seq<BuiltInView> {
    seq![
        BuiltInView { name: "new"@, opcode: Opcode::NEW, params_count: 1, variadic: false },
        BuiltInView { name: "make"@, opcode: Opcode::MAKE, params_count: 2, variadic: true },
        BuiltInView { name: "len"@, opcode: Opcode::LEN, params_count: 1, variadic: false },
        BuiltInView { name: "cap"@, opcode: Opcode::CAP, params_count: 1, variadic: false },
        BuiltInView { name: "append"@, opcode: Opcode::APPEND, params_count: 2, variadic: true },
        BuiltInView { name: "assert"@, opcode: Opcode::ASSERT, params_count: 1, variadic: false },
    ]
}

/// The position of the first built-in function with the name, from `i` on.
pub open spec fn built_in_func_from(name: Seq<char>, i: int) -> Option<int>
    decreases built_in_funcs().len() - i,
{
    if 0 <= i < built_in_funcs().len() {
        if built_in_funcs()[i].name == name {
            Some(i)
        } else {
            built_in_func_from(name, i + 1)
        }
    } else {
        None
    }
}

/// The opcode of a built-in value: `true`, `false` or `nil`.
pub open spec fn built_in_val(name: Seq<char>) -> Option<Opcode> {
    if name == "true"@ {
        Some(Opcode::PUSH_TRUE)
    } else if name == "false"@ {
        Some(Opcode::PUSH_FALSE)
    } else if name == "nil"@ {
        Some(Opcode::PUSH_NIL)
    } else {
        None
    }
}

/// The failure of a kind at a position, which leaves the state `m`.
pub open spec fn fail<T>(m: GenView, pos: usize, kind: ErrorKind) -> Res<T> {
    Err((m, GenError { pos, kind }))
}

/// Whether the function with the key is under construction.
pub open spec fn on_stack(stack: Seq<FunctionKey>, k: int) -> bool {
    exists|w: int| 0 <= w < stack.len() && #[trigger] stack[w] == k
}

/// Package `i` of the packages with the keys is complete: its first member
/// is its constructor, whose code ends by initialising package `i`.
pub open spec fn package_complete(objs: ObjectsView, keys: Seq<PackageKey>, i: int) -> bool {
    let p = objs.packages[keys[i] as int];
    &&& p.members.len() > 0
    &&& p.members[0] is Function
    &&& p.members[0]->Function_0 < objs.functions.len()
    &&& ({
        let ctor = objs.functions[p.members[0]->Function_0 as int];
        &&& ctor.is_ctor
        &&& ctor.code.len() >= 2
        &&& ctor.code[ctor.code.len() - 2] == CodeWord::Code(Opcode::RETURN_INIT_PKG)
        &&& ctor.code[ctor.code.len() - 1] == CodeWord::Data(i as i16)
    })
}

/// Package `i` is complete, and its constructor is no longer under construction.
pub open spec fn package_sealed(m: GenView, i: int) -> bool {
    &&& package_complete(m.objs, m.package_keys, i)
    &&& !on_stack(
        m.func_stack,
        m.objs.packages[m.package_keys[i] as int].members[0]->Function_0 as int,
    )
}

/// How many members the package of a function has; none where the function
/// has no package.
pub open spec fn members_of(objs: ObjectsView, package: Option<PackageKey>) -> int {
    match package {
        Some(p) => objs.packages[p as int].members.len() as int,
        None => 0,
    }
}

/// Every `LOAD` and `STORE` of the function that names a member of its
/// package names a member that the package has.
pub open spec fn function_members_ok(objs: ObjectsView, f: FunctionView) -> bool {
    member_accesses_ok(f.code, members_of(objs, f.package))
}

/// The state is consistent.
#[verifier::opaque]
pub open spec fn gen_wf(m: GenView) -> bool {
    &&& objects_wf(m.objs)
    &&& forall|k: int|
        0 <= k < m.objs.functions.len() ==> function_members_ok(
            m.objs,
            #[trigger] m.objs.functions[k],
        )
    &&& forall|w: int|
        0 <= w < m.func_stack.len() ==> m.objs.functions[(#[trigger] m.func_stack[w]) as int].package
            == m.current_pkg
    &&& forall|k: int|
        0 <= k < m.func_stack.len() ==> (#[trigger] m.func_stack[k]) < m.objs.functions.len()
    &&& forall|k: int|
        0 <= k < m.objs.functions.len() ==> ((#[trigger] m.objs.functions[k]).package matches Some(
            p,
        ) ==> p < m.objs.packages.len())
    &&& forall|k: int|
        0 <= k < m.objs.functions.len() && !on_stack(m.func_stack, k) ==> jumps_closed(
            (#[trigger] m.objs.functions[k]).code,
        )
    &&& m.func_stack.len() > 0 ==> m.current_pkg is Some
    &&& m.current_pkg matches Some(p) ==> p < m.objs.packages.len()
    &&& m.package_keys.len() <= i16::MAX
    &&& forall|i: int|
        0 <= i < m.package_keys.len() ==> (#[trigger] m.package_keys[i]) < m.objs.packages.len()
    &&& forall|i: int|
        0 <= i < m.package_keys.len() && (m.func_stack.len() == 0 || m.current_pkg != Some(
            #[trigger] m.package_keys[i],
        )) ==> package_sealed(m, i)
}

/// `b` is `a` after more work on the same functions.
#[verifier::opaque]
pub open spec fn gen_extends(a: GenView, b: GenView) -> bool {
    &&& b.func_stack == a.func_stack
    &&& b.current_pkg == a.current_pkg
    &&& b.package_keys == a.package_keys
    &&& b.package_indices == a.package_indices
    &&& objects_extends(a.objs, b.objs)
}

/// What a step leaves as it was below the function that it works on,
/// whether it succeeds or fails: the package that is generated, the packages
/// in their order and their indices, whether the outermost function under
/// construction is a constructor, and the first member of the package.
pub open spec fn frame_below(a: GenView, b: GenView) -> bool {
    &&& b.current_pkg == a.current_pkg
    &&& b.package_keys == a.package_keys
    &&& b.package_indices == a.package_indices
    &&& a.func_stack.len() > 0 && a.func_stack[0] < a.objs.functions.len() ==> a.func_stack[0]
        < b.objs.functions.len() && b.objs.functions[a.func_stack[0] as int].is_ctor
        == a.objs.functions[a.func_stack[0] as int].is_ctor
    &&& a.current_pkg is Some && a.current_pkg->Some_0 < a.objs.packages.len()
        ==> a.current_pkg->Some_0 < b.objs.packages.len() && (a.pkg().members.len() > 0
        ==> b.pkg().members.len() > 0 && b.pkg().members[0] == a.pkg().members[0])
}

/// What a step leaves as it was, whether it succeeds or fails: the
/// functions under construction, and what `frame_below` names.
pub open spec fn frame(a: GenView, b: GenView) -> bool {
    b.func_stack == a.func_stack && frame_below(a, b)
}

/// An address that can be loaded from and stored to in the current
/// function: the function or the package has the slot, and a built-in value
/// is an opcode without data words.
pub open spec fn loadable(m: GenView, idx: EntIndex) -> bool {
    &&& index_ok(m.cur(), idx)
    &&& idx matches EntIndex::BuiltIn(op) ==> op.spec_operands() == 0
    &&& idx matches EntIndex::PackageMember(i) ==> 0 <= i < m.pkg().members.len()
}

/// What an executable step did, against what the rule says: the state is
/// the rule's, and so is the value on success and the error on failure.
pub open spec fn refines<T>(r: Result<T, GenError>, after: GenView, rule: Res<T>) -> bool {
    match rule {
        Ok((m, v)) => r == Ok::<T, GenError>(v) && after == m,
        Err((m, e)) => r == Err::<T, GenError>(e) && after == m,
    }
}

/// The state when a function that was under construction is complete: its
/// code ends with the words given, and the function before it is current again.
pub open spec fn close_function(m: GenView, words: Seq<CodeWord>) -> GenView {
    GenView { func_stack: m.func_stack.drop_last(), ..m.emit(words) }
}

/// The state when a new function is put under construction.
pub open spec fn open_function(m: GenView, f: FunctionView) -> GenView {
    GenView {
        objs: ObjectsView { functions: m.objs.functions.push(f), ..m.objs },
        func_stack: m.func_stack.push(m.objs.functions.len() as usize),
        ..m
    }
}

/// The state without the innermost function under construction.
pub open spec fn pop_function(m: GenView) -> GenView {
    GenView { func_stack: m.func_stack.drop_last(), ..m }
}

/// Package `index`, the last one, is being generated: its constructor is the
/// one function under construction, and its first member.
pub open spec fn package_open(m: GenView, index: int) -> bool {
    &&& m.func_stack.len() == 1
    &&& index == m.package_keys.len() - 1
    &&& 0 <= index
    &&& m.current_pkg == Some(m.package_keys[index])
    &&& forall|i: int| 0 <= i < index ==> #[trigger] m.package_keys[i] != m.package_keys[index]
    &&& m.pkg().members.len() > 0
    &&& m.pkg().members[0] == Value::Function(m.func_stack[0])
    &&& m.cur().is_ctor
}

impl GenView {
    /// The key of the function that code is emitted into.
    pub open spec fn cur_key(self) -> FunctionKey {
        self.func_stack.last()
    }

    /// The function that code is emitted into.
    pub open spec fn cur(self) -> FunctionView {
        self.objs.functions[self.cur_key() as int]
    }

    /// The package that is being generated.
    pub open spec fn pkg(self) -> PackageView {
        self.objs.packages[self.current_pkg->Some_0 as int]
    }

    pub open spec fn with_objs(self, objs: ObjectsView) -> GenView {
        GenView { objs, ..self }
    }

    pub open spec fn with_cur(self, f: FunctionView) -> GenView {
        self.with_objs(self.objs.with_function(self.cur_key(), f))
    }

    /// How many words the current function has.
    pub open spec fn here(self) -> int {
        self.cur().code.len() as int
    }

    /// Appends words to the code of the current function.
    pub open spec fn emit(self, words: Seq<CodeWord>) -> GenView {
        self.with_cur(self.cur().emit(words))
    }

    /// Appends an opcode without data words.
    pub open spec fn emit_code(self, op: Opcode) -> GenView {
        self.emit(seq![CodeWord::Code(op)])
    }

    /// Appends an opcode with its data word.
    pub open spec fn emit_inst(self, op: Opcode, d: i16) -> GenView {
        self.emit(seq![CodeWord::Code(op), CodeWord::Data(d)])
    }

    /// Appends a jump to a target. Fails where the offset does not fit.
    #[verifier::opaque]
    pub open spec fn emit_jump(self, pos: usize, op: Opcode, target: int) -> Res<()> {
        if offset_fits(self.here(), target) {
            Ok((self.emit_inst(op, (target - (self.here() + 2)) as i16), ()))
        } else {
            fail(self, pos, ErrorKind::Overflow)
        }
    }

    /// Makes the jump at `at` aim at `target`. Fails where the offset does not fit.
    #[verifier::opaque]
    pub open spec fn patch(self, pos: usize, at: int, target: int) -> Res<()> {
        if offset_fits(at, target) {
            Ok((self.with_cur(self.cur().patch(at, target)), ()))
        } else {
            fail(self, pos, ErrorKind::Overflow)
        }
    }

    /// Registers a constant in the current function.
    #[verifier::opaque]
    pub open spec fn add_const(self, pos: usize, entity: Option<EntityKey>, cst: Value) -> Res<
        EntIndex,
    > {
        match self.cur().add_const(entity, cst) {
            Some((f, idx)) => Ok((self.with_cur(f), idx)),
            None => fail(self, pos, ErrorKind::Overflow),
        }
    }

    /// Registers a constant without a name and loads it.
    #[verifier::opaque]
    pub open spec fn load_const(self, pos: usize, cst: Value) -> Res<()> {
        match self.add_const(pos, None, cst) {
            Ok((m, idx)) => Ok((m.emit(load_words(idx)), ())),
            Err(e) => Err(e),
        }
    }

    /// Adds a string object.
    #[verifier::opaque]
    pub open spec fn new_str(self, s: Seq<char>) -> (GenView, Value) {
        (self.with_objs(self.objs.new_str(s).0), self.objs.new_str(s).1)
    }

    /// Loads the name of an identifier as a string constant.
    #[verifier::opaque]
    pub open spec fn push_ident_str(self, id: Ident) -> Res<()> {
        self.new_str(id.name@).0.load_const(id.pos, self.new_str(id.name@).1)
    }

    /// Registers a named constant in the current function. In a package's
    /// constructor the constant becomes a member of the package too.
    #[verifier::opaque]
    pub open spec fn add_const_def(self, pos: usize, entity: Option<EntityKey>, cst: Value) -> Res<
        EntIndex,
    > {
        match self.add_const(pos, entity, cst) {
            Ok((m, idx)) => if m.cur().is_ctor && m.cur().package is Some {
                let pk = m.cur().package->Some_0;
                match m.objs.packages[pk as int].add_member(entity, cst) {
                    Some((p, _)) => Ok((m.with_objs(m.objs.with_package(pk, p)), idx)),
                    None => fail(m, pos, ErrorKind::Overflow),
                }
            } else {
                Ok((m, idx))
            },
            Err(e) => Err(e),
        }
    }

    /// The nearest enclosing function that binds the name, and the address
    /// it binds it to. The search goes from position `i` of the stack of
    /// functions outwards and leaves out the package's constructor at the bottom.
    #[verifier::opaque]
    pub open spec fn find_upvalue(
        self,
        entity: EntityKey,
        i: int,
    ) -> Option<(FunctionKey, EntIndex)>
        decreases i,
    {
        if i < 1 || i >= self.func_stack.len() {
            None
        } else {
            match self.objs.functions[self.func_stack[i] as int].entity_index(entity) {
                Some(idx) => Some((self.func_stack[i], idx)),
                None => self.find_upvalue(entity, i - 1),
            }
        }
    }

    /// The address of an identifier: a built-in value, a local of the current
    /// function, a variable captured from an enclosing function, or a member
    /// of the package, in this order.
    #[verifier::opaque]
    pub open spec fn resolve_ident(self, id: Ident) -> Res<EntIndex> {
        match id.entity {
            None => match built_in_val(id.name@) {
                Some(op) => Ok((self, EntIndex::BuiltIn(op))),
                None => fail(self, id.pos, ErrorKind::Undefined),
            },
            Some(e) => match self.cur().entity_index(e) {
                Some(idx) => Ok((self, idx)),
                None => match self.find_upvalue(e, self.func_stack.len() - 2) {
                    Some((fkey, idx)) => match self.cur().try_add_upvalue(
                        e,
                        UpValue::Open(fkey, idx),
                    ) {
                        Some((f, up)) => Ok((self.with_cur(f), up)),
                        None => fail(self, id.pos, ErrorKind::Overflow),
                    },
                    None => match self.pkg().member_index(e) {
                        Some(i) => Ok((self, EntIndex::PackageMember(i))),
                        None => fail(self, id.pos, ErrorKind::Undefined),
                    },
                },
            },
        }
    }

    /// The address of an identifier that is assigned to. The blank identifier
    /// is a sink. A definition allocates a local, which in a package's
    /// constructor becomes a variable of the package too.
    #[verifier::opaque]
    pub open spec fn add_local_or_resolve_ident(self, id: Ident, is_def: bool) -> Res<EntIndex> {
        if id.spec_is_blank() {
            Ok((self, EntIndex::Blank))
        } else if is_def {
            match self.cur().add_local(id.entity) {
                Some((f, idx)) => {
                    let m = self.with_cur(f);
                    if f.is_ctor && f.package is Some && id.entity is Some {
                        let pk = f.package->Some_0;
                        match m.objs.packages[pk as int].add_var(
                            id.entity->Some_0,
                            idx.spec_words().1,
                        ) {
                            Some((p, _)) => Ok((m.with_objs(m.objs.with_package(pk, p)), idx)),
                            None => fail(m, id.pos, ErrorKind::Overflow),
                        }
                    } else {
                        Ok((m, idx))
                    }
                },
                None => fail(self, id.pos, ErrorKind::Overflow),
            }
        } else {
            self.resolve_ident(id)
        }
    }
}

/// A state whose current function was replaced by one that is in order, of
/// the same package, is consistent.
pub proof fn lemma_with_cur_wf(m: GenView, f: FunctionView)
    requires
        gen_wf(m),
        m.func_stack.len() > 0,
        crate::func::function_wf(f),
        f.package == m.cur().package,
        f.code == m.cur().code || member_accesses_ok(f.code, members_of(m.objs, f.package)),
    ensures
        gen_wf(m.with_cur(f)),
        m.with_cur(f).cur() == f,
{
    reveal(gen_wf);
    let n = m.with_cur(f);
    let k = m.cur_key();
    assert(m.func_stack[m.func_stack.len() - 1] == k);
    assert(on_stack(m.func_stack, k as int));
    assert forall|j: int| 0 <= j < n.objs.functions.len() implies function_members_ok(
        n.objs,
        #[trigger] n.objs.functions[j],
    ) by {
        assert(function_members_ok(m.objs, m.objs.functions[j]));
        if j != k {
            assert(n.objs.functions[j] == m.objs.functions[j]);
        }
    }
    assert forall|w: int| 0 <= w < n.func_stack.len() implies n.objs.functions[(
    #[trigger] n.func_stack[w]) as int].package == n.current_pkg by {
        assert(m.objs.functions[m.func_stack[w] as int].package == m.current_pkg);
    }
    assert forall|j: int| 0 <= j < n.objs.functions.len() implies crate::func::function_wf(
        #[trigger] n.objs.functions[j],
    ) by {
        if j != k {
            assert(n.objs.functions[j] == m.objs.functions[j]);
        }
    }
    assert forall|j: int|
        0 <= j < n.objs.functions.len() implies ((#[trigger] n.objs.functions[j]).package matches Some(
        p,
    ) ==> p < n.objs.packages.len()) by {
        assert(n.objs.functions[j].package == m.objs.functions[j].package);
    }
    assert forall|j: int|
        0 <= j < n.objs.functions.len() && !on_stack(n.func_stack, j) implies jumps_closed(
        (#[trigger] n.objs.functions[j]).code,
    ) by {
        assert(j != k);
        assert(n.objs.functions[j] == m.objs.functions[j]);
    }
    assert forall|i: int|
        0 <= i < n.package_keys.len() && (n.func_stack.len() == 0 || n.current_pkg != Some(
            #[trigger] n.package_keys[i],
        )) implies package_sealed(n, i) by {
        assert(package_sealed(m, i));
        let c = m.objs.packages[m.package_keys[i] as int].members[0]->Function_0;
        assert(c != k);
        assert(n.objs.functions[c as int] == m.objs.functions[c as int]);
        assert(on_stack(n.func_stack, c as int) == on_stack(m.func_stack, c as int));
    }
}

/// A state whose current function did more work since `base` is a state
/// after more work since `base`.
pub proof fn lemma_with_cur_extends(base: GenView, m: GenView, f: FunctionView)
    requires
        gen_wf(base),
        gen_extends(base, m),
        m.func_stack.len() > 0,
        function_extends(base.cur(), f),
    ensures
        gen_extends(base, m.with_cur(f)),
{
    reveal(gen_wf);
    reveal(gen_extends);
    let n = m.with_cur(f);
    let k = m.cur_key();
    assert(base.func_stack[base.func_stack.len() - 1] < base.objs.functions.len());
    assert forall|j: int| 0 <= j < base.objs.functions.len() implies function_extends(
        base.objs.functions[j],
        #[trigger] n.objs.functions[j],
    ) by {
        if j != k {
            assert(n.objs.functions[j] == m.objs.functions[j]);
        }
    }
    assert forall|j: int| 0 <= j < base.objs.packages.len() implies crate::package::package_extends(
        base.objs.packages[j],
        #[trigger] n.objs.packages[j],
    ) by {
        assert(n.objs.packages[j] == m.objs.packages[j]);
    }
}

/// A state whose current function did more work is consistent, and a state
/// after more work.
pub proof fn lemma_with_cur(m: GenView, f: FunctionView)
    requires
        gen_wf(m),
        m.func_stack.len() > 0,
        crate::func::function_wf(f),
        function_extends(m.cur(), f),
        f.code == m.cur().code || member_accesses_ok(f.code, members_of(m.objs, f.package)),
    ensures
        gen_wf(m.with_cur(f)),
        gen_extends(m, m.with_cur(f)),
        m.with_cur(f).cur() == f,
{
    reveal(gen_wf);
    reveal(gen_extends);
    lemma_with_cur_wf(m, f);
    lemma_gen_extends_refl(m);
    lemma_with_cur_extends(m, m, f);
}

/// No work is more work, too.
pub proof fn lemma_gen_extends_refl(m: GenView)
    ensures
        gen_extends(m, m),
{
    reveal(gen_extends);
}

/// A state one of whose packages did more work is consistent.
pub proof fn lemma_with_package(m: GenView, pk: PackageKey, p: PackageView)
    requires
        gen_wf(m),
        pk < m.objs.packages.len(),
        crate::package::package_wf(p),
        crate::package::package_extends(m.objs.packages[pk as int], p),
    ensures
        gen_wf(m.with_objs(m.objs.with_package(pk, p))),
        gen_extends(m, m.with_objs(m.objs.with_package(pk, p))),
{
    reveal(gen_wf);
    reveal(gen_extends);
    let n = m.with_objs(m.objs.with_package(pk, p));
    assert forall|j: int| 0 <= j < n.objs.functions.len() implies function_members_ok(
        n.objs,
        #[trigger] n.objs.functions[j],
    ) by {
        let f = m.objs.functions[j];
        assert(function_members_ok(m.objs, f));
        assert(f.package matches Some(q) ==> q < m.objs.packages.len());
        crate::func::lemma_member_accesses_more(
            f.code,
            members_of(m.objs, f.package),
            members_of(n.objs, f.package),
        );
    }
    assert forall|w: int| 0 <= w < n.func_stack.len() implies n.objs.functions[(
    #[trigger] n.func_stack[w]) as int].package == n.current_pkg by {
        assert(m.objs.functions[m.func_stack[w] as int].package == m.current_pkg);
    }
    assert forall|j: int| 0 <= j < n.objs.packages.len() implies crate::package::package_wf(
        #[trigger] n.objs.packages[j],
    ) by {
        if j != pk {
            assert(n.objs.packages[j] == m.objs.packages[j]);
        }
    }
    assert forall|j: int| 0 <= j < m.objs.packages.len() implies crate::package::package_extends(
        m.objs.packages[j],
        #[trigger] n.objs.packages[j],
    ) by {
        if j != pk {
            assert(n.objs.packages[j] == m.objs.packages[j]);
        }
    }
    assert forall|j: int| 0 <= j < m.objs.functions.len() implies function_extends(
        m.objs.functions[j],
        #[trigger] n.objs.functions[j],
    ) by {}
    assert forall|j: int|
        0 <= j < n.objs.functions.len() implies ((#[trigger] n.objs.functions[j]).package matches Some(
        q,
    ) ==> q < n.objs.packages.len()) by {
        assert(n.objs.functions[j] == m.objs.functions[j]);
    }
    assert forall|j: int|
        0 <= j < n.objs.functions.len() && !on_stack(n.func_stack, j) implies jumps_closed(
        (#[trigger] n.objs.functions[j]).code,
    ) by {
        assert(n.objs.functions[j] == m.objs.functions[j]);
    }
    assert forall|i: int|
        0 <= i < n.package_keys.len() && (n.func_stack.len() == 0 || n.current_pkg != Some(
            #[trigger] n.package_keys[i],
        )) implies package_sealed(n, i) by {
        assert(package_sealed(m, i));
        let q = m.package_keys[i];
        if q == pk {
            assert(p.members[0] == m.objs.packages[pk as int].members[0]);
        } else {
            assert(n.objs.packages[q as int] == m.objs.packages[q as int]);
        }
    }
}

/// A state whose tables other than those of functions and packages grew is consistent.
pub proof fn lemma_with_objs(m: GenView, o: ObjectsView)
    requires
        gen_wf(m),
        objects_wf(o),
        objects_extends(m.objs, o),
        o.functions == m.objs.functions,
        o.packages == m.objs.packages,
    ensures
        gen_wf(m.with_objs(o)),
        gen_extends(m, m.with_objs(o)),
{
    reveal(gen_wf);
    reveal(gen_extends);
    let n = m.with_objs(o);
    assert forall|j: int| 0 <= j < n.objs.functions.len() implies function_members_ok(
        n.objs,
        #[trigger] n.objs.functions[j],
    ) by {
        assert(function_members_ok(m.objs, m.objs.functions[j]));
    }
    assert forall|w: int| 0 <= w < n.func_stack.len() implies n.objs.functions[(
    #[trigger] n.func_stack[w]) as int].package == n.current_pkg by {
        assert(m.objs.functions[m.func_stack[w] as int].package == m.current_pkg);
    }
    assert forall|i: int|
        0 <= i < n.package_keys.len() && (n.func_stack.len() == 0 || n.current_pkg != Some(
            #[trigger] n.package_keys[i],
        )) implies package_sealed(n, i) by {
        assert(package_sealed(m, i));
    }
}

/// Work after work is more work.
pub proof fn lemma_gen_extends_trans(a: GenView, b: GenView, c: GenView)
    requires
        gen_extends(a, b),
        gen_extends(b, c),
    ensures
        gen_extends(a, c),
{
    reveal(gen_extends);
    assert forall|k: int| 0 <= k < a.objs.functions.len() implies function_extends(
        a.objs.functions[k],
        #[trigger] c.objs.functions[k],
    ) by {
        crate::func::lemma_function_extends_trans(
            a.objs.functions[k],
            b.objs.functions[k],
            c.objs.functions[k],
        );
    }
    assert forall|k: int| 0 <= k < a.objs.packages.len() implies crate::package::package_extends(
        a.objs.packages[k],
        #[trigger] c.objs.packages[k],
    ) by {
        assert(crate::package::package_extends(a.objs.packages[k], b.objs.packages[k]));
        assert(crate::package::package_extends(b.objs.packages[k], c.objs.packages[k]));
    }
}

/// What more work leaves of the current function: its code is still there,
/// what came after it begins with an opcode, and the slots that it had it has.
pub proof fn lemma_cur_extends(a: GenView, b: GenView)
    requires
        gen_wf(a),
        gen_extends(a, b),
        a.func_stack.len() > 0,
    ensures
        b.func_stack == a.func_stack,
        b.current_pkg == a.current_pkg,
        a.here() <= b.here(),
        forall|i: int| 0 <= i < a.here() ==> #[trigger] b.cur().code[i] == a.cur().code[i],
        a.here() < b.here() ==> b.cur().code[a.here()] is Code,
        b.cur().ret_count == a.cur().ret_count,
        a.cur().local_alloc <= b.cur().local_alloc,
        forall|x: EntIndex|
            #[trigger] crate::func::index_ok(a.cur(), x) ==> crate::func::index_ok(b.cur(), x),
{
    reveal(gen_wf);
    reveal(gen_extends);
    assert(a.func_stack[a.func_stack.len() - 1] < a.objs.functions.len());
    assert(function_extends(a.objs.functions[a.cur_key() as int], b.objs.functions[a.cur_key() as int]));
}

/// A state is a state after more work where the functions under
/// construction are the same and the tables only grew.
pub proof fn lemma_gen_extends_intro(a: GenView, b: GenView)
    requires
        b.func_stack == a.func_stack,
        b.current_pkg == a.current_pkg,
        b.package_keys == a.package_keys,
        b.package_indices == a.package_indices,
        objects_extends(a.objs, b.objs),
    ensures
        gen_extends(a, b),
{
    reveal(gen_extends);
}

/// What more work leaves as it was.
pub proof fn lemma_gen_extends_elim(a: GenView, b: GenView)
    requires
        gen_extends(a, b),
    ensures
        b.func_stack == a.func_stack,
        b.current_pkg == a.current_pkg,
        b.package_keys == a.package_keys,
        b.package_indices == a.package_indices,
        objects_extends(a.objs, b.objs),
{
    reveal(gen_extends);
}

/// Putting a new function of the current package under construction keeps
/// the state consistent.
pub proof fn lemma_open_function(m: GenView, f: FunctionView)
    requires
        gen_wf(m),
        crate::func::function_wf(f),
        f.package == m.current_pkg,
        f.code.len() == 0,
        m.current_pkg is Some,
        m.objs.functions.len() < usize::MAX,
    ensures
        gen_wf(open_function(m, f)),
        objects_extends(m.objs, open_function(m, f).objs),
        !on_stack(m.func_stack, m.objs.functions.len() as int),
{
    reveal(gen_wf);
    let n = open_function(m, f);
    let k = m.objs.functions.len() as int;
    assert forall|j: int| 0 <= j < n.func_stack.len() implies (#[trigger] n.func_stack[j])
        < n.objs.functions.len() by {
        if j < m.func_stack.len() {
            assert(n.func_stack[j] == m.func_stack[j]);
        }
    }
    assert forall|j: int| 0 <= j < n.objs.functions.len() implies function_members_ok(
        n.objs,
        #[trigger] n.objs.functions[j],
    ) by {
        if j < k {
            assert(n.objs.functions[j] == m.objs.functions[j]);
            assert(function_members_ok(m.objs, m.objs.functions[j]));
        }
    }
    assert forall|w: int| 0 <= w < n.func_stack.len() implies n.objs.functions[(
    #[trigger] n.func_stack[w]) as int].package == n.current_pkg by {
        if w < m.func_stack.len() {
            assert(n.func_stack[w] == m.func_stack[w]);
            assert(m.func_stack[w] < m.objs.functions.len());
            assert(m.objs.functions[m.func_stack[w] as int].package == m.current_pkg);
        }
    }
    assert forall|j: int| 0 <= j < n.objs.functions.len() implies crate::func::function_wf(
        #[trigger] n.objs.functions[j],
    ) by {
        if j < k {
            assert(n.objs.functions[j] == m.objs.functions[j]);
        }
    }
    assert forall|j: int|
        0 <= j < n.objs.functions.len() implies ((#[trigger] n.objs.functions[j]).package matches Some(
        p,
    ) ==> p < n.objs.packages.len()) by {
        if j < k {
            assert(n.objs.functions[j] == m.objs.functions[j]);
        }
    }
    assert(n.func_stack[n.func_stack.len() - 1] == k);
    assert forall|j: int| on_stack(m.func_stack, j) implies on_stack(n.func_stack, j) by {
        let w = choose|w: int| 0 <= w < m.func_stack.len() && #[trigger] m.func_stack[w] == j;
        assert(n.func_stack[w] == j);
    }
    assert forall|j: int| on_stack(n.func_stack, j) && j != k implies on_stack(m.func_stack, j) by {
        let w = choose|w: int| 0 <= w < n.func_stack.len() && #[trigger] n.func_stack[w] == j;
        assert(m.func_stack[w] == j);
    }
    assert forall|j: int|
        0 <= j < n.objs.functions.len() && !on_stack(n.func_stack, j) implies jumps_closed(
        (#[trigger] n.objs.functions[j]).code,
    ) by {
        assert(j != k);
        assert(n.objs.functions[j] == m.objs.functions[j]);
    }
    assert forall|i: int|
        0 <= i < n.package_keys.len() && (n.func_stack.len() == 0 || n.current_pkg != Some(
            #[trigger] n.package_keys[i],
        )) implies package_sealed(n, i) by {
        assert(package_sealed(m, i));
        let c = m.objs.packages[m.package_keys[i] as int].members[0]->Function_0;
        assert(n.objs.functions[c as int] == m.objs.functions[c as int]);
    }
    assert forall|j: int| 0 <= j < m.objs.functions.len() implies function_extends(
        m.objs.functions[j],
        #[trigger] n.objs.functions[j],
    ) by {
        assert(n.objs.functions[j] == m.objs.functions[j]);
    }
    assert forall|j: int| 0 <= j < m.objs.packages.len() implies crate::package::package_extends(
        m.objs.packages[j],
        #[trigger] n.objs.packages[j],
    ) by {}
}

/// Taking a complete function from under construction keeps the state
/// consistent, where another function is under construction still.
pub proof fn lemma_close_function(m: GenView)
    requires
        gen_wf(m),
        m.func_stack.len() >= 2,
        jumps_closed(m.cur().code),
        !on_stack(pop_function(m).func_stack, m.cur_key() as int),
    ensures
        gen_wf(pop_function(m)),
{
    reveal(gen_wf);
    let n = pop_function(m);
    assert forall|j: int| 0 <= j < n.func_stack.len() implies (#[trigger] n.func_stack[j])
        < n.objs.functions.len() by {
        assert(n.func_stack[j] == m.func_stack[j]);
    }
    assert forall|w: int| 0 <= w < n.func_stack.len() implies n.objs.functions[(
    #[trigger] n.func_stack[w]) as int].package == n.current_pkg by {
        assert(n.func_stack[w] == m.func_stack[w]);
        assert(m.objs.functions[m.func_stack[w] as int].package == m.current_pkg);
    }
    assert forall|j: int|
        on_stack(m.func_stack, j) && j != m.cur_key() implies on_stack(n.func_stack, j) by {
        let w = choose|w: int| 0 <= w < m.func_stack.len() && #[trigger] m.func_stack[w] == j;
        assert(n.func_stack[w] == j);
    }
    assert forall|j: int| on_stack(n.func_stack, j) implies on_stack(m.func_stack, j) by {
        let w = choose|w: int| 0 <= w < n.func_stack.len() && #[trigger] n.func_stack[w] == j;
        assert(m.func_stack[w] == j);
    }
    assert forall|i: int|
        0 <= i < n.package_keys.len() && (n.func_stack.len() == 0 || n.current_pkg != Some(
            #[trigger] n.package_keys[i],
        )) implies package_sealed(n, i) by {
        assert(package_sealed(m, i));
    }
}

/// A package that is being generated is still being generated after more work.
pub proof fn lemma_package_open(a: GenView, b: GenView, index: int)
    requires
        gen_wf(a),
        gen_extends(a, b),
        package_open(a, index),
    ensures
        package_open(b, index),
{
    reveal(gen_wf);
    reveal(gen_extends);
    lemma_cur_extends(a, b);
    assert(function_extends(a.objs.functions[a.cur_key() as int], b.objs.functions[a.cur_key() as int]));
    let pk = a.current_pkg->Some_0 as int;
    assert(crate::package::package_extends(a.objs.packages[pk], b.objs.packages[pk]));
    assert(b.objs.packages[pk].members[0] == a.objs.packages[pk].members[0]);
}

/// When the constructor of the package that is being generated ends by
/// initialising the package, and is taken from under construction, every
/// package is complete.
pub proof fn lemma_close_package(m: GenView, index: int)
    requires
        gen_wf(m),
        package_open(m, index),
        jumps_closed(m.cur().code),
        m.cur().code.len() >= 2,
        m.cur().code[m.cur().code.len() - 2] == CodeWord::Code(Opcode::RETURN_INIT_PKG),
        m.cur().code[m.cur().code.len() - 1] == CodeWord::Data(index as i16),
    ensures
        gen_wf(pop_function(m)),
        forall|i: int| 0 <= i < m.package_keys.len() ==> package_sealed(pop_function(m), i),
{
    reveal(gen_wf);
    let n = pop_function(m);
    assert(n.func_stack =~= Seq::empty());
    assert(m.func_stack[0] == m.cur_key());
    assert forall|j: int|
        0 <= j < n.objs.functions.len() && !on_stack(n.func_stack, j) implies jumps_closed(
        (#[trigger] n.objs.functions[j]).code,
    ) by {
        if j != m.cur_key() {
            if on_stack(m.func_stack, j) {
                let w = choose|w: int|
                    0 <= w < m.func_stack.len() && #[trigger] m.func_stack[w] == j;
                assert(w == 0);
            }
        }
    }
    assert forall|i: int| 0 <= i < n.package_keys.len() implies package_sealed(n, i) by {
        if i == index {
        } else {
            assert(m.package_keys[i] != m.package_keys[index]);
            assert(package_sealed(m, i));
        }
    }
}

/// Adding a complete function that is not under construction keeps the
/// state consistent.
pub proof fn lemma_add_function(m: GenView, f: FunctionView)
    requires
        gen_wf(m),
        crate::func::function_wf(f),
        jumps_closed(f.code),
        f.package matches Some(p) ==> p < m.objs.packages.len(),
        member_accesses_ok(f.code, members_of(m.objs, f.package)),
    ensures
        gen_wf(m.with_objs(ObjectsView { functions: m.objs.functions.push(f), ..m.objs })),
        objects_extends(
            m.objs,
            ObjectsView { functions: m.objs.functions.push(f), ..m.objs },
        ),
{
    reveal(gen_wf);
    let n = m.with_objs(ObjectsView { functions: m.objs.functions.push(f), ..m.objs });
    let k = m.objs.functions.len() as int;
    assert forall|j: int| 0 <= j < n.objs.functions.len() implies function_members_ok(
        n.objs,
        #[trigger] n.objs.functions[j],
    ) by {
        if j < k {
            assert(n.objs.functions[j] == m.objs.functions[j]);
            assert(function_members_ok(m.objs, m.objs.functions[j]));
        }
    }
    assert forall|w: int| 0 <= w < n.func_stack.len() implies n.objs.functions[(
    #[trigger] n.func_stack[w]) as int].package == n.current_pkg by {
        assert(m.func_stack[w] < m.objs.functions.len());
        assert(m.objs.functions[m.func_stack[w] as int].package == m.current_pkg);
    }
    assert forall|j: int| 0 <= j < n.objs.functions.len() implies crate::func::function_wf(
        #[trigger] n.objs.functions[j],
    ) by {
        if j < k {
            assert(n.objs.functions[j] == m.objs.functions[j]);
        }
    }
    assert forall|j: int|
        0 <= j < n.objs.functions.len() implies ((#[trigger] n.objs.functions[j]).package matches Some(
        p,
    ) ==> p < n.objs.packages.len()) by {
        if j < k {
            assert(n.objs.functions[j] == m.objs.functions[j]);
        }
    }
    assert forall|j: int|
        0 <= j < n.objs.functions.len() && !on_stack(n.func_stack, j) implies jumps_closed(
        (#[trigger] n.objs.functions[j]).code,
    ) by {
        if j < k {
            assert(n.objs.functions[j] == m.objs.functions[j]);
        }
    }
    assert forall|i: int|
        0 <= i < n.package_keys.len() && (n.func_stack.len() == 0 || n.current_pkg != Some(
            #[trigger] n.package_keys[i],
        )) implies package_sealed(n, i) by {
        assert(package_sealed(m, i));
        let c = m.objs.packages[m.package_keys[i] as int].members[0]->Function_0;
        assert(n.objs.functions[c as int] == m.objs.functions[c as int]);
    }
}

/// What a consistent state with a function under construction has: the
/// tables are in order, and the current function and package are there.
pub proof fn lemma_active(m: GenView)
    requires
        gen_wf(m),
    ensures
        objects_wf(m.objs),
        m.func_stack.len() > 0 ==> m.cur_key() < m.objs.functions.len() && m.current_pkg is Some
            && m.current_pkg->Some_0 < m.objs.packages.len(),
        m.func_stack.len() > 0 ==> m.cur().package == m.current_pkg,
        m.func_stack.len() > 0 ==> member_accesses_ok(m.cur().code, m.pkg().members.len() as int),
{
    reveal(gen_wf);
    if m.func_stack.len() > 0 {
        assert(m.func_stack[m.func_stack.len() - 1] < m.objs.functions.len());
        assert(m.objs.functions[m.func_stack[m.func_stack.len() - 1] as int].package
            == m.current_pkg);
        assert(function_members_ok(m.objs, m.objs.functions[m.cur_key() as int]));
    }
}

/// A state whose current function got whole instructions appended is
/// consistent, and a state after more work.
pub proof fn lemma_with_cur_emit(m: GenView, words: Seq<CodeWord>)
    requires
        gen_wf(m),
        m.func_stack.len() > 0,
        crate::func::function_wf(m.cur().emit(words)),
        words.len() > 0 ==> words[0] is Code,
        crate::func::member_words_ok(words, m.pkg().members.len() as int),
    ensures
        gen_wf(m.emit(words)),
        gen_extends(m, m.emit(words)),
        m.emit(words).cur() == m.cur().emit(words),
{
    lemma_active(m);
    reveal(gen_wf);
    assert(crate::func::function_wf(m.objs.functions[m.cur_key() as int]));
    crate::func::lemma_member_accesses_append(m.cur(), words, m.pkg().members.len() as int);
    crate::func::lemma_emit_extends(m.cur(), words);
    lemma_with_cur(m, m.cur().emit(words));
}

/// An address that can be loaded from stays so after more work.
pub proof fn lemma_loadable(a: GenView, b: GenView, idx: EntIndex)
    requires
        gen_wf(a),
        gen_extends(a, b),
        a.func_stack.len() > 0,
        loadable(a, idx),
    ensures
        loadable(b, idx),
{
    lemma_cur_extends(a, b);
    lemma_active(a);
    reveal(gen_extends);
    let pk = a.current_pkg->Some_0 as int;
    assert(crate::package::package_extends(a.objs.packages[pk], b.objs.packages[pk]));
}

/// A local slot that the current function has can be stored to.
pub proof fn lemma_local_slot(m: GenView, i: int)
    requires
        gen_wf(m),
        m.func_stack.len() > 0,
        0 <= i < m.cur().local_alloc,
    ensures
        i <= i16::MAX,
        loadable(m, EntIndex::LocalVar(i as i16)),
{
    reveal(gen_wf);
    assert(m.func_stack[m.func_stack.len() - 1] < m.objs.functions.len());
    assert(crate::func::function_wf(m.objs.functions[m.cur_key() as int]));
}

/// In a consistent state without a function under construction every jump
/// of every function aims at an opcode of the function, and every package
/// is complete.
pub proof fn lemma_idle(m: GenView)
    requires
        gen_wf(m),
        m.func_stack.len() == 0,
    ensures
        objects_wf(m.objs),
        forall|k: int|
            0 <= k < m.objs.functions.len() ==> jumps_closed((#[trigger] m.objs.functions[k]).code),
        forall|i: int|
            0 <= i < m.package_keys.len() ==> (#[trigger] m.package_keys[i]) < m.objs.packages.len()
                && package_complete(m.objs, m.package_keys, i),
        forall|k: int|
            0 <= k < m.objs.functions.len() ==> function_members_ok(
                m.objs,
                #[trigger] m.objs.functions[k],
            ),
{
    reveal(gen_wf);
    assert forall|k: int| 0 <= k < m.objs.functions.len() implies jumps_closed(
        (#[trigger] m.objs.functions[k]).code,
    ) by {
        assert(!on_stack(m.func_stack, k));
    }
    assert forall|i: int| 0 <= i < m.package_keys.len() implies (#[trigger] m.package_keys[i])
        < m.objs.packages.len() && package_complete(m.objs, m.package_keys, i) by {
        assert(package_sealed(m, i));
    }
}

/// A state after more work keeps what a step leaves as it was.
pub proof fn lemma_frame(a: GenView, b: GenView)
    requires
        gen_extends(a, b),
    ensures
        frame(a, b),
{
    reveal(gen_extends);
    if a.func_stack.len() > 0 && a.func_stack[0] < a.objs.functions.len() {
        let k = a.func_stack[0] as int;
        assert(function_extends(a.objs.functions[k], b.objs.functions[k]));
    }
    if a.current_pkg is Some && a.current_pkg->Some_0 < a.objs.packages.len() {
        let pk = a.current_pkg->Some_0 as int;
        assert(crate::package::package_extends(a.objs.packages[pk], b.objs.packages[pk]));
        if a.pkg().members.len() > 0 {
            assert(b.objs.packages[pk].members[0] == a.objs.packages[pk].members[0]);
        }
    }
}

/// A package that is being generated is still being generated after a step,
/// whether the step succeeded or failed.
pub proof fn lemma_package_open_frame(a: GenView, b: GenView, index: int)
    requires
        gen_wf(a),
        frame(a, b),
        package_open(a, index),
    ensures
        package_open(b, index),
{
    lemma_active(a);
}

/// Tables that only grew keep what a step leaves as it was below the
/// function that it works on.
pub proof fn lemma_frame_below(a: GenView, b: GenView)
    requires
        objects_extends(a.objs, b.objs),
        b.current_pkg == a.current_pkg,
        b.package_keys == a.package_keys,
        b.package_indices == a.package_indices,
    ensures
        frame_below(a, b),
{
    if a.func_stack.len() > 0 && a.func_stack[0] < a.objs.functions.len() {
        let k = a.func_stack[0] as int;
        assert(function_extends(a.objs.functions[k], b.objs.functions[k]));
    }
    if a.current_pkg is Some && a.current_pkg->Some_0 < a.objs.packages.len() {
        let pk = a.current_pkg->Some_0 as int;
        assert(crate::package::package_extends(a.objs.packages[pk], b.objs.packages[pk]));
        if a.pkg().members.len() > 0 {
            assert(b.objs.packages[pk].members[0] == a.objs.packages[pk].members[0]);
        }
    }
}

} // verus!

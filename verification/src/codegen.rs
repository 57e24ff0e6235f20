//! The generator: it walks the syntax tree and emits code into the function
//! under construction.

use vstd::prelude::*;
use crate::ast::{Field, FuncType, Ident};
use crate::bytecode::ByteCode;
use crate::func::{
    Function, function_extends, index_ok, lemma_emit_extends, lemma_function_extends_trans,
    load_words, store_words,
};
use crate::model::{
    built_in_funcs, BuiltInView, frame, frame_below, gen_extends, gen_wf, GenView, lemma_active, lemma_close_function, lemma_frame, lemma_gen_extends_trans, lemma_open_function, lemma_with_cur, lemma_with_cur_emit, lemma_with_cur_extends, lemma_with_cur_wf, lemma_with_objs, lemma_with_package, loadable, on_stack, package_open, refines,
};
use crate::objects::{names_view, Objects, objects_extends, str_is, TYPE_DEFAULT_CLOSURE, TypeData};
use crate::opcode::{CodeWord, Opcode};
use crate::value::{
    EntIndex, EntityKey, ErrorKind, FunctionKey, GenError, LeftHandSide, PackageKey, TypeError,
    TypeKey, UpValue, Value,
};

verus! {

/// Built-in functions are not called like other functions: each is lowered
/// to an opcode of its own.
pub struct BuiltInFunc {
    name: &'static str,
    opcode: Opcode,
    params_count: isize,
    variadic: bool,
}

impl View for BuiltInFunc {
    type V = BuiltInView;

    closed spec fn view(&self) -> BuiltInView {
        BuiltInView {
            name: self.name@,
            opcode: self.opcode,
            params_count: self.params_count as int,
            variadic: self.variadic,
        }
    }
}

/// CodeGen implements the code generation logic.
pub struct CodeGen {
    objects: Objects,
    package_indices: Vec<(String, i16)>,
    packages: Vec<PackageKey>,
    current_pkg: Option<PackageKey>,
    func_stack: Vec<FunctionKey>,
    built_in_funcs: Vec<BuiltInFunc>,
}

impl View for CodeGen {
    type V = GenView;

    closed spec fn view(&self) -> GenView {
        GenView {
            objs: self.objects@,
            package_indices: names_view(self.package_indices@),
            package_keys: self.packages@,
            current_pkg: self.current_pkg,
            func_stack: self.func_stack@,
        }
    }
}

/// The fields that an optional reference refers to.
pub open spec fn opt_fields(recv: Option<&Vec<Field>>) -> Option<Vec<Field>> {
    match recv {
        Some(fields) => Some(*fields),
        None => None,
    }
}

/// The artifact that a state without a function under construction is
/// completed to.
pub open spec fn byte_code_of(m: GenView) -> crate::bytecode::ByteCodeView {
    crate::bytecode::ByteCodeView {
        objs: crate::rules::gen_entry(m).0.objs,
        package_indices: m.package_indices,
        package_keys: m.package_keys,
        entry: crate::rules::gen_entry(m).1,
    }
}

/// The state of a new generator.
pub open spec fn initial_state() -> GenView {
    GenView {
        objs: crate::objects::initial_objects(),
        package_indices: Seq::empty(),
        package_keys: Seq::empty(),
        current_pkg: None,
        func_stack: Seq::empty(),
    }
}

/// Allocates the local slots of names. Returns `false` when no slot is left.
fn add_names(f: &mut Function, names: &Vec<Ident>) -> (ok: bool)
    requires
        old(f).wf(),
    ensures
        match crate::rules::add_names(old(f)@, names@, 0) {
            Ok(g) => ok && final(f)@ == g,
            Err(g) => !ok && final(f)@ == g,
        },
        final(f).wf(),
        function_extends(old(f)@, final(f)@),
        final(f)@.code == old(f)@.code,
{
    let mut j: usize = 0;
    proof {
        lemma_emit_extends(f@, Seq::empty());
        assert(f@.emit(Seq::empty()).code =~= f@.code);
    }
    while j < names.len()
        invariant
            j <= names.len(),
            f.wf(),
            function_extends(old(f)@, f@),
            f@.code == old(f)@.code,
            crate::rules::add_names(old(f)@, names@, 0) == crate::rules::add_names(
                f@,
                names@,
                j as int,
            ),
        decreases names.len() - j,
    {
        let ghost g = f@;
        if f.add_local(names[j].entity).is_none() {
            return false;
        }
        proof {
            lemma_function_extends_trans(old(f)@, g, f@);
        }
        j = j + 1;
    }
    true
}

/// Allocates the local slots of fields: one for each name, and one for a
/// field without names. Returns `false` when no slot is left.
fn add_params(f: &mut Function, fields: &Vec<Field>) -> (ok: bool)
    requires
        old(f).wf(),
    ensures
        match crate::rules::add_params(old(f)@, fields@, 0) {
            Ok(g) => ok && final(f)@ == g,
            Err(g) => !ok && final(f)@ == g,
        },
        final(f).wf(),
        function_extends(old(f)@, final(f)@),
        final(f)@.code == old(f)@.code,
{
    let mut i: usize = 0;
    proof {
        lemma_emit_extends(f@, Seq::empty());
        assert(f@.emit(Seq::empty()).code =~= f@.code);
    }
    while i < fields.len()
        invariant
            i <= fields.len(),
            f.wf(),
            function_extends(old(f)@, f@),
            f@.code == old(f)@.code,
            crate::rules::add_params(old(f)@, fields@, 0) == crate::rules::add_params(
                f@,
                fields@,
                i as int,
            ),
        decreases fields.len() - i,
    {
        let ghost g = f@;
        if fields[i].names.len() == 0 {
            if f.add_local(None).is_none() {
                return false;
            }
        } else {
            if !add_names(f, &fields[i].names) {
                return false;
            }
        }
        proof {
            lemma_function_extends_trans(old(f)@, g, f@);
        }
        i = i + 1;
    }
    true
}

impl BuiltInFunc {
    pub fn new(name: &'static str, op: Opcode, params: isize, variadic: bool) -> (r: BuiltInFunc)
        ensures
            r@ == (BuiltInView { name: name@, opcode: op, params_count: params as int, variadic }),
    {
        BuiltInFunc { name: name, opcode: op, params_count: params, variadic: variadic }
    }
}

impl CodeGen {
    /// The table of built-in functions is the one that the rules go by.
    pub closed spec fn built_ins_ok(&self) -> bool {
        &&& self.built_in_funcs.len() == built_in_funcs().len()
        &&& forall|i: int|
            0 <= i < self.built_in_funcs.len() ==> (#[trigger] self.built_in_funcs[i])@
                == built_in_funcs()[i]
    }

    /// Whether the generator's state is consistent.
    pub open spec fn wf(&self) -> bool {
        gen_wf(self@) && self.built_ins_ok()
    }

    /// Whether a function is under construction, so that code can be emitted.
    pub open spec fn active(&self) -> bool {
        self.wf() && self@.func_stack.len() > 0
    }

    /// A generator with the basic types and no package.
    pub fn new() -> (g: CodeGen)
        ensures
            g.wf(),
            g@ == initial_state(),
    {
        reveal(gen_wf);
        let mut funcs: Vec<BuiltInFunc> = Vec::new();
        funcs.push(BuiltInFunc::new("new", Opcode::NEW, 1, false));
        funcs.push(BuiltInFunc::new("make", Opcode::MAKE, 2, true));
        funcs.push(BuiltInFunc::new("len", Opcode::LEN, 1, false));
        funcs.push(BuiltInFunc::new("cap", Opcode::CAP, 1, false));
        funcs.push(BuiltInFunc::new("append", Opcode::APPEND, 2, true));
        funcs.push(BuiltInFunc::new("assert", Opcode::ASSERT, 1, false));
        let g = CodeGen {
            objects: Objects::new(),
            package_indices: Vec::new(),
            packages: Vec::new(),
            current_pkg: None,
            func_stack: Vec::new(),
            built_in_funcs: funcs,
        };
        proof {
            assert(names_view(g.package_indices@) =~= Seq::empty());
            assert(g@ =~= initial_state());
        }
        g
    }

    /// The tables.
    pub fn objects(&self) -> (r: &Objects)
        ensures
            r@ == self@.objs,
    {
        &self.objects
    }

    /// The package that is being generated.
    pub fn current_pkg(&self) -> (r: Option<PackageKey>)
        ensures
            r == self@.current_pkg,
    {
        self.current_pkg
    }

    /// How many packages were generated or begun.
    pub fn package_count(&self) -> (n: usize)
        ensures
            n == self@.package_keys.len(),
    {
        self.packages.len()
    }

    /// The key of the function that code is emitted into.
    pub(crate) fn cur_key(&self) -> (k: FunctionKey)
        requires
            self.active(),
        ensures
            k == self@.cur_key(),
            k < self@.objs.functions.len(),
    {
        proof {
            lemma_active(self@);
        }
        self.func_stack[self.func_stack.len() - 1]
    }

    /// How many words the current function has.
    pub(crate) fn here(&self) -> (n: usize)
        requires
            self.active(),
        ensures
            n == self@.here(),
    {
        self.objects.function(self.cur_key()).code().len()
    }

    /// Appends an opcode without data words to the current function.
    pub(crate) fn emit_code(&mut self, op: Opcode)
        requires
            old(self).active(),
            op.spec_operands() == 0,
        ensures
            final(self).active(),
            frame(old(self)@, final(self)@),
            gen_extends(old(self)@, final(self)@),
            final(self)@ == old(self)@.emit_code(op),
            final(self)@.cur().code == old(self)@.cur().code.push(CodeWord::Code(op)),
    {
        reveal(gen_extends);
        proof {
            lemma_active(self@);
        }
        let k = self.cur_key();
        let f = self.objects.function_mut(k);
        f.emit_code(op);
        proof {
            let m = old(self)@;
            lemma_with_cur_emit(m, seq![CodeWord::Code(op)]);
            assert(self@ =~= m.emit_code(op));
            assert(m.cur().code + seq![CodeWord::Code(op)] =~= m.cur().code.push(CodeWord::Code(op)));
        }
    }

    /// Appends an opcode with its data word to the current function. A jump
    /// must aim at an opcode that is there, at itself, or at the end.
    pub(crate) fn emit_inst(&mut self, op: Opcode, d: i16)
        requires
            old(self).active(),
            op.spec_operands() == 1,
            op.spec_is_jump() ==> {
                let t = old(self)@.here() + 2 + d;
                &&& 0 <= t <= old(self)@.here() + 2
                &&& t != old(self)@.here() + 1
                &&& t < old(self)@.here() ==> old(self)@.cur().code[t] is Code
            },
        ensures
            final(self).active(),
            frame(old(self)@, final(self)@),
            gen_extends(old(self)@, final(self)@),
            final(self)@ == old(self)@.emit_inst(op, d),
            final(self)@.cur().code == old(self)@.cur().code.push(CodeWord::Code(op)).push(
                CodeWord::Data(d),
            ),
    {
        reveal(gen_extends);
        proof {
            lemma_active(self@);
        }
        let k = self.cur_key();
        let f = self.objects.function_mut(k);
        f.emit_inst(op, d);
        proof {
            let m = old(self)@;
            let words = seq![CodeWord::Code(op), CodeWord::Data(d)];
            lemma_with_cur_emit(m, words);
            assert(self@ =~= m.emit_inst(op, d));
            assert(m.cur().code + words =~= m.cur().code.push(CodeWord::Code(op)).push(
                CodeWord::Data(d),
            ));
        }
    }

    /// Appends a load from an address to the current function.
    pub(crate) fn emit_load(&mut self, idx: EntIndex)
        requires
            old(self).active(),
            loadable(old(self)@, idx),
        ensures
            final(self).active(),
            frame(old(self)@, final(self)@),
            gen_extends(old(self)@, final(self)@),
            final(self)@ == old(self)@.emit(load_words(idx)),
            final(self)@.cur().code == old(self)@.cur().code + load_words(idx),
    {
        reveal(gen_extends);
        proof {
            lemma_active(self@);
        }
        let k = self.cur_key();
        let f = self.objects.function_mut(k);
        f.emit_load(idx);
        proof {
            let m = old(self)@;
            lemma_with_cur_emit(m, load_words(idx));
            assert(self@ =~= m.emit(load_words(idx)));
        }
    }

    /// Appends a store to a target to the current function.
    pub(crate) fn emit_store(&mut self, lhs: LeftHandSide, val_off: i16, op: Option<Opcode>)
        requires
            old(self).active(),
            lhs matches LeftHandSide::Primitive(idx) ==> loadable(old(self)@, idx),
        ensures
            final(self).active(),
            frame(old(self)@, final(self)@),
            gen_extends(old(self)@, final(self)@),
            final(self)@ == old(self)@.emit(store_words(lhs, val_off, op)),
            final(self)@.cur().code == old(self)@.cur().code + store_words(lhs, val_off, op),
    {
        reveal(gen_extends);
        proof {
            lemma_active(self@);
        }
        let k = self.cur_key();
        let f = self.objects.function_mut(k);
        f.emit_store(lhs, val_off, op);
        proof {
            let m = old(self)@;
            lemma_with_cur_emit(m, store_words(lhs, val_off, op));
            assert(self@ =~= m.emit(store_words(lhs, val_off, op)));
        }
    }

    /// Appends a jump to a target that is an opcode of the current function,
    /// or its end.
    pub(crate) fn emit_jump(
        &mut self,
        pos: usize,
        op: Opcode,
        target: usize,
    ) -> (r: Result<(), GenError>)
        requires
            old(self).active(),
            op.spec_operands() == 1,
            target <= old(self)@.here(),
            target < old(self)@.here() ==> old(self)@.cur().code[target as int] is Code,
        ensures
            refines(r, final(self)@, old(self)@.emit_jump(pos, op, target as int)),
            r is Err ==> final(self)@ == old(self)@,
            final(self).active(),
            frame(old(self)@, final(self)@),
            r is Ok ==> gen_extends(old(self)@, final(self)@),
            r is Ok ==> final(self)@.here() == old(self)@.here() + 2,
            r is Ok ==> crate::func::offset_fits(old(self)@.here(), target as int),
            r is Ok ==> final(self)@.cur().code == old(self)@.cur().code.push(
                CodeWord::Code(op),
            ).push(CodeWord::Data((target - (old(self)@.here() + 2)) as i16)),
    {
        reveal(gen_extends);
        reveal(GenView::emit_jump);
        let at: usize = self.here();
        match crate::func::jump_offset(at, target) {
            Some(d) => {
                self.emit_inst(op, d);
                Ok(())
            },
            None => Err(GenError { pos, kind: ErrorKind::Overflow }),
        }
    }

    /// Makes the jump at `at` of the current function aim at `target`. The
    /// jump was emitted after the state `base`.
    pub(crate) fn patch(
        &mut self,
        pos: usize,
        at: usize,
        target: usize,
        Ghost(base): Ghost<GenView>,
    ) -> (r:
        Result<(), GenError>)
        requires
            old(self).active(),
            gen_wf(base),
            gen_extends(base, old(self)@),
            base.here() <= at,
            at + 1 < old(self)@.here(),
            old(self)@.cur().code[at as int] is Code,
            old(self)@.cur().code[at as int]->Code_0.spec_is_jump(),
            old(self)@.cur().code[at + 1] is Data,
            target <= old(self)@.here(),
            target < old(self)@.here() ==> old(self)@.cur().code[target as int] is Code,
        ensures
            refines(r, final(self)@, old(self)@.patch(pos, at as int, target as int)),
            r is Err ==> final(self)@ == old(self)@,
            final(self).active(),
            frame(old(self)@, final(self)@),
            r is Ok ==> gen_extends(base, final(self)@),
            r is Ok ==> crate::func::offset_fits(at as int, target as int),
            r is Ok ==> final(self)@.cur().code == old(self)@.cur().code.update(
                at + 1,
                CodeWord::Data((target - (at + 2)) as i16),
            ),
    {
        reveal(gen_extends);
        reveal(GenView::patch);
        proof {
            lemma_active(self@);
        }
        let k = self.cur_key();
        let f = self.objects.function_mut(k);
        let done = f.patch_jump(at, target);
        proof {
            let m = old(self)@;
            if done {
                let g = m.cur().patch(at as int, target as int);
                crate::model::lemma_gen_extends_elim(base, m);
                lemma_active(base);
                assert(function_extends(base.cur(), m.cur()));
                assert(function_extends(base.cur(), g)) by {
                    assert forall|i: int| 0 <= i < base.cur().code.len() implies base.cur().code[i]
                        == g.code[i] by {
                        assert(m.cur().code[i] == g.code[i]);
                    }
                }
                lemma_active(m);
                assert(crate::func::function_wf(m.cur())) by {
                    reveal(gen_wf);
                }
                crate::func::lemma_member_accesses_patch(
                    m.cur(),
                    at as int,
                    (target - (at + 2)) as i16,
                    m.pkg().members.len() as int,
                );
                lemma_with_cur_wf(m, g);
                lemma_with_cur_extends(base, m, g);
                assert(self@ =~= m.with_cur(g));
            } else {
                assert(self@ =~= m);
            }
        }
        if done {
            Ok(())
        } else {
            Err(GenError { pos, kind: ErrorKind::Overflow })
        }
    }

    /// Registers a constant in the current function.
    pub(crate) fn add_const(
        &mut self,
        pos: usize,
        entity: Option<EntityKey>,
        cst: Value,
    ) -> (r: Result<
        EntIndex,
        GenError,
    >)
        requires
            old(self).active(),
        ensures
            refines(r, final(self)@, old(self)@.add_const(pos, entity, cst)),
            r is Err ==> final(self)@ == old(self)@,
            final(self).active(),
            frame(old(self)@, final(self)@),
            r is Ok ==> gen_extends(old(self)@, final(self)@),
            r is Ok ==> loadable(final(self)@, r->Ok_0) && r->Ok_0 is Const,
            r is Ok ==> final(self)@.here() == old(self)@.here(),
    {
        reveal(gen_extends);
        reveal(GenView::add_const);
        proof {
            lemma_active(self@);
        }
        let k = self.cur_key();
        let f = self.objects.function_mut(k);
        let idx = f.add_const(entity, cst);
        proof {
            let m = old(self)@;
            match m.cur().add_const(entity, cst) {
                Some((g, _)) => {
                    lemma_with_cur(m, g);
                    assert(self@ =~= m.with_cur(g));
                },
                None => {
                    assert(self@ =~= m);
                },
            }
        }
        match idx {
            Some(i) => Ok(i),
            None => Err(GenError { pos, kind: ErrorKind::Overflow }),
        }
    }

    /// Registers a constant without a name and loads it.
    pub(crate) fn load_const(&mut self, pos: usize, cst: Value) -> (r: Result<(), GenError>)
        requires
            old(self).active(),
        ensures
            refines(r, final(self)@, old(self)@.load_const(pos, cst)),
            final(self).active(),
            frame(old(self)@, final(self)@),
            r is Ok ==> gen_extends(old(self)@, final(self)@),
    {
        reveal(gen_extends);
        reveal(GenView::load_const);
        let idx = self.add_const(pos, None, cst)?;
        let ghost mid = self@;
        self.emit_load(idx);
        proof {
            lemma_gen_extends_trans(old(self)@, mid, self@);
        }
        Ok(())
    }

    /// Adds a string object.
    pub(crate) fn new_str(&mut self, text: String) -> (r: Value)
        requires
            old(self).active(),
        ensures
            final(self).active(),
            frame(old(self)@, final(self)@),
            gen_extends(old(self)@, final(self)@),
            (final(self)@, r) == old(self)@.new_str(text@),
            final(self)@.here() == old(self)@.here(),
    {
        reveal(gen_extends);
        reveal(GenView::new_str);
        proof {
            lemma_active(self@);
        }
        let r = self.objects.new_str(text);
        proof {
            let m = old(self)@;
            lemma_with_objs(m, m.objs.new_str(text@).0);
            assert(self@ =~= m.new_str(text@).0);
        }
        r
    }

    /// Loads the name of an identifier as a string constant.
    pub(crate) fn gen_push_ident_str(&mut self, ident: &Ident) -> (r: Result<(), GenError>)
        requires
            old(self).active(),
        ensures
            refines(r, final(self)@, old(self)@.push_ident_str(*ident)),
            final(self).active(),
            frame(old(self)@, final(self)@),
            r is Ok ==> gen_extends(old(self)@, final(self)@),
    {
        reveal(gen_extends);
        reveal(GenView::push_ident_str);
        let name = ident.name.clone();
        let v = self.new_str(name);
        let ghost mid = self@;
        self.load_const(ident.pos, v)?;
        proof {
            lemma_gen_extends_trans(old(self)@, mid, self@);
        }
        Ok(())
    }

    /// Registers a named constant in the current function. In a package's
    /// constructor the constant becomes a member of the package too.
    pub(crate) fn current_func_add_const_def(
        &mut self,
        pos: usize,
        entity: Option<EntityKey>,
        cst: Value,
    ) -> (r:
        Result<EntIndex, GenError>)
        requires
            old(self).active(),
        ensures
            refines(r, final(self)@, old(self)@.add_const_def(pos, entity, cst)),
            final(self).active(),
            frame(old(self)@, final(self)@),
            r is Ok ==> gen_extends(old(self)@, final(self)@),
    {
        reveal(gen_extends);
        reveal(GenView::add_const_def);
        let index = self.add_const(pos, entity, cst)?;
        let ghost mid = self@;
        proof {
            lemma_active(mid);
        }
        let func = self.objects.function(self.cur_key());
        if func.is_ctor() {
            if let Some(pk) = func.package() {
                let pkg = self.objects.package_mut(pk);
                let added = pkg.add_member(entity, cst);
                proof {
                    match mid.objs.packages[pk as int].add_member(entity, cst) {
                        Some((p, _)) => {
                            lemma_with_package(mid, pk, p);
                            assert(self@ =~= mid.with_objs(mid.objs.with_package(pk, p)));
                            lemma_gen_extends_trans(old(self)@, mid, self@);
                        },
                        None => {
                            assert(self@ =~= mid);
                        },
                    }
                }
                if added.is_none() {
                    return Err(GenError { pos, kind: ErrorKind::Overflow });
                }
            }
        }
        Ok(index)
    }

    /// Adds a type object whose zero value is `nil`.
    pub(crate) fn new_type(&mut self, data: TypeData) -> (r: TypeKey)
        requires
            old(self).active(),
        ensures
            final(self).active(),
            frame(old(self)@, final(self)@),
            gen_extends(old(self)@, final(self)@),
            Ok::<(GenView, TypeKey), crate::model::Failure>((final(self)@, r)) == crate::rules::add_type(
                old(self)@,
                data@,
            ),
            r < final(self)@.objs.types.len(),
    {
        reveal(gen_extends);
        proof {
            lemma_active(self@);
        }
        let r = self.objects.new_type(data, Value::Nil);
        proof {
            let m = old(self)@;
            lemma_with_objs(m, m.objs.new_type(data@, Value::Nil).0);
            assert(self@ =~= m.with_objs(m.objs.new_type(data@, Value::Nil).0));
        }
        r
    }

    /// Adds a slice object that holds the values.
    pub(crate) fn new_slice(&mut self, vals: Vec<Value>) -> (r: Value)
        requires
            old(self).active(),
        ensures
            final(self).active(),
            frame(old(self)@, final(self)@),
            gen_extends(old(self)@, final(self)@),
            final(self)@ == old(self)@.with_objs(old(self)@.objs.new_slice(vals@).0),
            r == old(self)@.objs.new_slice(vals@).1,
    {
        reveal(gen_extends);
        proof {
            lemma_active(self@);
        }
        let r = self.objects.new_slice(vals);
        proof {
            let m = old(self)@;
            lemma_with_objs(m, m.objs.new_slice(vals@).0);
            assert(self@ =~= m.with_objs(m.objs.new_slice(vals@).0));
        }
        r
    }

    /// Adds an empty map object, and gives its key.
    pub(crate) fn new_map(&mut self, default: Value) -> (r: usize)
        requires
            old(self).active(),
        ensures
            final(self).active(),
            frame(old(self)@, final(self)@),
            gen_extends(old(self)@, final(self)@),
            final(self)@ == old(self)@.with_objs(old(self)@.objs.new_map(default).0),
            Value::MapVal(r) == old(self)@.objs.new_map(default).1,
            r == old(self)@.objs.maps.len(),
            r < final(self)@.objs.maps.len(),
    {
        reveal(gen_extends);
        proof {
            lemma_active(self@);
        }
        let v = self.objects.new_map(default);
        proof {
            let m = old(self)@;
            lemma_with_objs(m, m.objs.new_map(default).0);
            assert(self@ =~= m.with_objs(m.objs.new_map(default).0));
        }
        match v {
            Value::MapVal(k) => k,
            _ => 0,
        }
    }

    /// Sets a key of a map object to a value.
    pub(crate) fn map_insert(&mut self, map: usize, key: Value, val: Value)
        requires
            old(self).active(),
            map < old(self)@.objs.maps.len(),
        ensures
            final(self).active(),
            frame(old(self)@, final(self)@),
            gen_extends(old(self)@, final(self)@),
            final(self)@ == old(self)@.with_objs(old(self)@.objs.map_insert(map, key, val)),
            final(self)@.objs.maps.len() == old(self)@.objs.maps.len(),
    {
        reveal(gen_extends);
        proof {
            lemma_active(self@);
        }
        self.objects.map_insert(map, key, val);
        proof {
            let m = old(self)@;
            lemma_with_objs(m, m.objs.map_insert(map, key, val));
            assert(self@ =~= m.with_objs(m.objs.map_insert(map, key, val)));
        }
    }

    /// The opcode of a built-in value.
    pub(crate) fn built_in_val(name: &String) -> (r: Option<Opcode>)
        ensures
            r == crate::model::built_in_val(name@),
            r matches Some(op) ==> op.spec_operands() == 0,
    {
        if str_is(name, "true") {
            Some(Opcode::PUSH_TRUE)
        } else if str_is(name, "false") {
            Some(Opcode::PUSH_FALSE)
        } else if str_is(name, "nil") {
            Some(Opcode::PUSH_NIL)
        } else {
            None
        }
    }

    /// The position of the built-in function with a name.
    pub(crate) fn built_in_func_index(&self, name: &String) -> (r: Option<usize>)
        requires
            self.wf(),
        ensures
            match r {
                Some(i) => i < 6 && crate::model::built_in_func_from(name@, 0) == Some(i as int),
                None => crate::model::built_in_func_from(name@, 0) is None,
            },
    {
        let mut i: usize = 0;
        while i < self.built_in_funcs.len()
            invariant
                i <= self.built_in_funcs.len(),
                self.wf(),
                crate::model::built_in_func_from(name@, 0) == crate::model::built_in_func_from(
                    name@,
                    i as int,
                ),
            decreases self.built_in_funcs.len() - i,
        {
            if str_is(name, self.built_in_funcs[i].name) {
                return Some(i);
            }
            i = i + 1;
        }
        None
    }

    /// The opcode of a built-in function, how many parameters it declares,
    /// and whether it is variadic.
    pub(crate) fn built_in(&self, i: usize) -> (r: (Opcode, isize, bool))
        requires
            self.wf(),
            i < 6,
        ensures
            r.0 == built_in_funcs()[i as int].opcode,
            r.1 == built_in_funcs()[i as int].params_count,
            r.2 == built_in_funcs()[i as int].variadic,
    {
        let bf = &self.built_in_funcs[i];
        (bf.opcode, bf.params_count, bf.variadic)
    }

    /// The nearest enclosing function that binds a name.
    pub(crate) fn find_upvalue(&self, entity: EntityKey) -> (r: Option<(FunctionKey, EntIndex)>)
        requires
            self.active(),
        ensures
            r == self@.find_upvalue(entity, self@.func_stack.len() - 2),
    {
        reveal_with_fuel(GenView::find_upvalue, 1);
        reveal(gen_wf);
        let n: usize = self.func_stack.len();
        if n < 2 {
            return None;
        }
        let mut i: usize = n - 2;
        while i >= 1
            invariant
                self.active(),
                n == self@.func_stack.len(),
                i <= n - 2,
                self@.find_upvalue(entity, n - 2) == self@.find_upvalue(entity, i as int),
            decreases i,
        {
            reveal_with_fuel(GenView::find_upvalue, 1);
            reveal(gen_wf);
            let fkey = self.func_stack[i];
            match self.objects.function(fkey).entity_index(entity) {
                Some(idx) => {
                    return Some((fkey, idx));
                },
                None => {},
            }
            i = i - 1;
        }
        None
    }

    /// The address of an identifier: a built-in value, a local of the current
    /// function, a variable captured from an enclosing function, or a member
    /// of the package, in this order.
    pub(crate) fn resolve_ident(&mut self, ident: &Ident) -> (r: Result<EntIndex, GenError>)
        requires
            old(self).active(),
        ensures
            refines(r, final(self)@, old(self)@.resolve_ident(*ident)),
            r is Err ==> final(self)@ == old(self)@,
            final(self).active(),
            frame(old(self)@, final(self)@),
            r is Ok ==> gen_extends(old(self)@, final(self)@),
            r is Ok ==> loadable(final(self)@, r->Ok_0),
            r is Ok ==> final(self)@.here() == old(self)@.here(),
    {
        reveal(gen_extends);
        reveal(GenView::resolve_ident);
        proof {
            lemma_active(self@);
            crate::model::lemma_gen_extends_refl(self@);
        }
        let entity = match ident.entity {
            None => {
                return match Self::built_in_val(&ident.name) {
                    Some(op) => Ok(EntIndex::BuiltIn(op)),
                    None => Err(GenError { pos: ident.pos, kind: ErrorKind::Undefined }),
                };
            },
            Some(e) => e,
        };
        let k = self.cur_key();
        if let Some(idx) = self.objects.function(k).entity_index(entity) {
            return Ok(idx);
        }
        if let Some((fkey, idx)) = self.find_upvalue(entity) {
            let f = self.objects.function_mut(k);
            let up = f.try_add_upvalue(entity, UpValue::Open(fkey, idx));
            proof {
                let m = old(self)@;
                match m.cur().try_add_upvalue(entity, UpValue::Open(fkey, idx)) {
                    Some((g, _)) => {
                        lemma_with_cur(m, g);
                        assert(self@ =~= m.with_cur(g));
                    },
                    None => {
                        assert(self@ =~= m);
                    },
                }
            }
            return match up {
                Some(i) => Ok(i),
                None => Err(GenError { pos: ident.pos, kind: ErrorKind::Overflow }),
            };
        }
        let pk = self.current_pkg.unwrap();
        match self.objects.package(pk).get_member_index(entity) {
            Some(i) => Ok(EntIndex::PackageMember(i)),
            None => Err(GenError { pos: ident.pos, kind: ErrorKind::Undefined }),
        }
    }

    /// The address of an identifier that is assigned to. The blank identifier
    /// is a sink. A definition allocates a local, which in a package's
    /// constructor becomes a variable of the package too.
    pub(crate) fn add_local_or_resolve_ident(&mut self, ident: &Ident, is_def: bool) -> (r: Result<
        EntIndex,
        GenError,
    >)
        requires
            old(self).active(),
        ensures
            refines(r, final(self)@, old(self)@.add_local_or_resolve_ident(*ident, is_def)),
            final(self).active(),
            frame(old(self)@, final(self)@),
            r is Ok ==> gen_extends(old(self)@, final(self)@),
            r is Ok ==> loadable(final(self)@, r->Ok_0),
            r is Ok ==> final(self)@.here() == old(self)@.here(),
    {
        reveal(gen_extends);
        reveal(GenView::add_local_or_resolve_ident);
        proof {
            lemma_active(self@);
            crate::model::lemma_gen_extends_refl(self@);
        }
        if ident.is_blank() {
            return Ok(EntIndex::Blank);
        }
        if !is_def {
            return self.resolve_ident(ident);
        }
        let k = self.cur_key();
        let f = self.objects.function_mut(k);
        let added = f.add_local(ident.entity);
        proof {
            let m = old(self)@;
            match m.cur().add_local(ident.entity) {
                Some((g, _)) => {
                    lemma_with_cur(m, g);
                    assert(self@ =~= m.with_cur(g));
                },
                None => {
                    assert(self@ =~= m);
                },
            }
        }
        let index = match added {
            Some(i) => i,
            None => {
                return Err(GenError { pos: ident.pos, kind: ErrorKind::Overflow });
            },
        };
        let ghost mid = self@;
        proof {
            lemma_active(mid);
        }
        let func = self.objects.function(k);
        if func.is_ctor() {
            if let Some(pk) = func.package() {
                if let Some(e) = ident.entity {
                    let pkg = self.objects.package_mut(pk);
                    let var = pkg.add_var(e, index.words().1);
                    proof {
                        match mid.objs.packages[pk as int].add_var(e, index.spec_words().1) {
                            Some((p, _)) => {
                                lemma_with_package(mid, pk, p);
                                assert(self@ =~= mid.with_objs(mid.objs.with_package(pk, p)));
                                lemma_gen_extends_trans(old(self)@, mid, self@);
                            },
                            None => {
                                assert(self@ =~= mid);
                            },
                        }
                    }
                    if var.is_none() {
                        return Err(GenError { pos: ident.pos, kind: ErrorKind::Overflow });
                    }
                }
            }
        }
        Ok(index)
    }

    /// Whether the type is a function type whose last parameter is variadic.
    pub(crate) fn is_variadic(&self, t: TypeKey) -> (r: bool)
        requires
            self.wf(),
            t < self@.objs.types.len(),
        ensures
            r == crate::rules::is_variadic(self@, t),
    {
        match self.objects.typ(t).data() {
            TypeData::Closure(params, _) => {
                if params.len() == 0 {
                    return false;
                }
                let last: TypeKey = params[params.len() - 1];
                if last >= self.objects.types().len() {
                    return false;
                }
                match self.objects.typ(last).data() {
                    TypeData::Variadic(_) => true,
                    _ => false,
                }
            },
            _ => false,
        }
    }

    /// Puts a new function of the current package under construction, with
    /// the locals of its results, receiver and parameters allocated.
    pub(crate) fn begin_function(
        &mut self,
        t: TypeKey,
        variadic: bool,
        recv: Option<&Vec<Field>>,
        ft: &FuncType,
        pos: usize,
    ) -> (r: Result<FunctionKey, GenError>)
        requires
            old(self).active(),
        ensures
            ({
                let made = old(self)@.objs.new_function(old(self)@.current_pkg, t, variadic, false);
                match crate::rules::bind_params(
                    made.0.functions[made.1 as int],
                    opt_fields(recv),
                    *ft,
                ) {
                    Ok(f) => r == Ok::<FunctionKey, GenError>(made.1) && final(self)@ == (GenView {
                        objs: made.0.with_function(made.1, f),
                        func_stack: old(self)@.func_stack.push(made.1),
                        ..old(self)@
                    }),
                    Err(f) => r == Err::<FunctionKey, GenError>(
                        GenError { pos, kind: ErrorKind::Overflow },
                    ) && final(self)@ == old(self)@.with_objs(made.0.with_function(made.1, f)),
                }
            }),
            final(self).active(),
            frame_below(old(self)@, final(self)@),
            objects_extends(old(self)@.objs, final(self)@.objs),
            r is Err ==> final(self)@.func_stack == old(self)@.func_stack,
            r is Ok ==> r->Ok_0 == old(self)@.objs.functions.len() && !on_stack(
                old(self)@.func_stack,
                r->Ok_0 as int,
            ),
    {
        reveal(crate::rules::bind_params);
        proof {
            lemma_active(self@);
        }
        let fkey = self.objects.new_function(self.current_pkg, t, variadic, false);
        let ghost made = old(self)@.objs.new_function(old(self)@.current_pkg, t, variadic, false);
        let ghost f0 = made.0.functions[fkey as int];
        let n: usize = self.objects.functions().len();
        let f = self.objects.function_mut(fkey);
        let mut ok = add_params(f, &ft.results);
        let ret_count: usize = f.local_alloc();
        if ok {
            if let Some(fields) = recv {
                ok = add_params(f, fields);
            }
        }
        if ok {
            ok = add_params(f, &ft.params);
        }
        if ok {
            let param_count: usize = f.local_alloc() - ret_count;
            f.set_counts(ret_count, param_count);
        }
        let ghost bound = f@;
        if !ok {
            proof {
                let m = old(self)@;
                crate::model::lemma_add_function(m, bound);
                assert(self@ =~= m.with_objs(
                    crate::objects::ObjectsView {
                        functions: m.objs.functions.push(bound),
                        ..m.objs
                    },
                ));
                crate::model::lemma_frame_below(m, self@);
            }
            return Err(GenError { pos, kind: ErrorKind::Overflow });
        }
        self.func_stack.push(fkey);
        proof {
            let m = old(self)@;
            let g = crate::rules::bind_params(f0, opt_fields(recv), *ft)->Ok_0;
            lemma_open_function(m, g);
            crate::model::lemma_frame_below(m, crate::model::open_function(m, g));
            assert(self@ =~= crate::model::open_function(m, g));
            assert(crate::model::open_function(m, g) =~= (GenView {
                objs: made.0.with_function(made.1, g),
                func_stack: m.func_stack.push(made.1),
                ..m
            }));
        }
        Ok(fkey)
    }

    /// Completes the function under construction with a `RETURN`, and makes
    /// the function before it current again.
    pub(crate) fn end_function(&mut self)
        requires
            old(self).active(),
            old(self)@.func_stack.len() >= 2,
            !on_stack(old(self)@.func_stack.drop_last(), old(self)@.cur_key() as int),
        ensures
            final(self).active(),
            final(self)@ == crate::model::close_function(
                old(self)@,
                seq![CodeWord::Code(Opcode::RETURN)],
            ),
            objects_extends(old(self)@.objs, final(self)@.objs),
            frame_below(old(self)@, final(self)@),
    {
        proof {
            lemma_active(self@);
        }
        self.emit_code(Opcode::RETURN);
        let ghost m1 = self@;
        self.func_stack.pop();
        proof {
            crate::func::lemma_seal(old(self)@.cur().code, CodeWord::Code(Opcode::RETURN));
            lemma_close_function(m1);
            assert(self@ =~= crate::model::pop_function(m1));
            crate::model::lemma_gen_extends_elim(old(self)@, m1);
            crate::model::lemma_frame_below(old(self)@, self@);
        }
    }

    /// Makes a function a member of the package, and the package's `main`
    /// where that is its name.
    pub(crate) fn add_func_member(&mut self, name: &Ident, fkey: FunctionKey) -> (r: Result<
        (),
        GenError,
    >)
        requires
            old(self).active(),
        ensures
            refines(r, final(self)@, crate::rules::add_func_member(old(self)@, *name, fkey)),
            final(self).active(),
            frame(old(self)@, final(self)@),
            r is Ok ==> gen_extends(old(self)@, final(self)@),
    {
        reveal(gen_extends);
        reveal(crate::rules::add_func_member);
        proof {
            lemma_active(self@);
        }
        let pk = self.current_pkg.unwrap();
        let pkg = self.objects.package_mut(pk);
        let added = pkg.add_member(name.entity, Value::Function(fkey));
        let ghost mid = pkg@;
        let is_main = str_is(&name.name, "main");
        match added {
            Some(index) => {
                if is_main {
                    pkg.set_main_func(index);
                }
            },
            None => {},
        }
        proof {
            let m = old(self)@;
            match m.pkg().add_member(name.entity, Value::Function(fkey)) {
                Some((p, index)) => {
                    let q = if is_main {
                        crate::package::PackageView { main_func: Some(index), ..p }
                    } else {
                        p
                    };
                    lemma_with_package(m, pk, q);
                    assert(self@ =~= m.with_objs(m.objs.with_package(pk, q)));
                },
                None => {
                    assert(self@ =~= m);
                },
            }
        }
        match added {
            Some(_) => Ok(()),
            None => Err(GenError { pos: name.pos, kind: ErrorKind::Overflow }),
        }
    }

    /// Attaches a function to the receiver's struct type as the member `name`.
    pub(crate) fn attach_method(
        &mut self,
        pos: usize,
        t: TypeKey,
        name: &String,
        fkey: FunctionKey,
    ) -> (r:
        Result<(), GenError>)
        requires
            old(self).active(),
            t < old(self)@.objs.types.len(),
        ensures
            refines(r, final(self)@, crate::rules::attach_method(old(self)@, pos, t, name@, fkey)),
            final(self).active(),
            frame(old(self)@, final(self)@),
            r is Ok ==> gen_extends(old(self)@, final(self)@),
    {
        reveal(gen_extends);
        reveal(crate::rules::attach_method);
        proof {
            lemma_active(self@);
        }
        let owner: TypeKey = match self.objects.typ(t).data() {
            TypeData::Boxed(b) => *b,
            _ => t,
        };
        if owner >= self.objects.types().len() || owner < 5 {
            return Err(GenError { pos, kind: ErrorKind::Type(TypeError::NotAStruct) });
        }
        let done = self.objects.add_struct_member(owner, name.clone(), Value::Function(fkey));
        proof {
            let m = old(self)@;
            match m.objs.add_struct_member(owner, name@, Value::Function(fkey)) {
                Some(o) => {
                    lemma_with_objs(m, o);
                    assert(self@ =~= m.with_objs(o));
                },
                None => {},
            }
        }
        if done {
            Ok(())
        } else {
            Err(GenError { pos, kind: ErrorKind::Type(TypeError::NotAStruct) })
        }
    }

    /// Enters the index of a package under its name.
    fn set_package_index(&mut self, name: &String, index: i16)
        ensures
            names_view(final(self).package_indices@) == crate::rules::set_package_index(
                names_view(old(self).package_indices@),
                name@,
                index,
            ),
            final(self).objects == old(self).objects,
            final(self).packages == old(self).packages,
            final(self).current_pkg == old(self).current_pkg,
            final(self).func_stack == old(self).func_stack,
            final(self).built_in_funcs == old(self).built_in_funcs,
    {
        let ghost view0 = names_view(self.package_indices@);
        let mut i: usize = 0;
        while i < self.package_indices.len()
            invariant
                i <= self.package_indices.len(),
                *self == *old(self),
                view0 == names_view(self.package_indices@),
                forall|j: int| 0 <= j < i ==> (#[trigger] view0[j]).0 != name@,
            decreases self.package_indices.len() - i,
        {
            if self.package_indices[i].0 == *name {
                proof {
                    crate::value::lemma_assoc_position_is(view0, name@, i as int);
                }
                self.package_indices.set(i, (name.clone(), index));
                proof {
                    assert(names_view(self.package_indices@) =~= view0.update(
                        i as int,
                        (name@, index),
                    ));
                }
                return ;
            }
            i = i + 1;
        }
        proof {
            crate::value::lemma_assoc_position(view0, name@);
        }
        self.package_indices.push((name.clone(), index));
        proof {
            assert(names_view(self.package_indices@) =~= view0.push((name@, index)));
        }
    }

    /// Begins the generation of a package: the package is new, its first
    /// member is its constructor, and code is emitted into the constructor.
    pub fn begin_package(&mut self, name: &String) -> (index: i16)
        requires
            old(self).wf(),
            old(self)@.func_stack.len() == 0,
            old(self)@.package_keys.len() < i16::MAX,
        ensures
            final(self).active(),
            final(self)@ == crate::rules::open_package(old(self)@, name@),
            index == old(self)@.package_keys.len(),
            package_open(final(self)@, index as int),
    {
        reveal(crate::rules::open_package);
        reveal(gen_wf);
        let index: i16 = self.packages.len() as i16;
        let pk = self.objects.new_package(name.clone());
        let fkey = self.objects.new_function(Some(pk), TYPE_DEFAULT_CLOSURE, false, true);
        let ghost o2 = self.objects@;
        let n: usize = self.objects.functions().len();
        let pkg = self.objects.package_mut(pk);
        let added = pkg.add_member(None, Value::Function(fkey));
        let ghost p = pkg@;
        let ghost o3 = o2.with_package(pk, p);
        self.set_package_index(name, index);
        self.packages.push(pk);
        self.current_pkg = Some(pk);
        self.func_stack.push(fkey);
        proof {
            let m = old(self)@;
            let n = crate::rules::open_package(m, name@);
            assert(self@ =~= n);
            assert(n.func_stack =~= seq![fkey]);
            assert(n.func_stack[0] == fkey);
            assert forall|j: int| 0 <= j < n.objs.functions.len() implies crate::func::function_wf(
                #[trigger] n.objs.functions[j],
            ) by {
                if j < m.objs.functions.len() {
                    assert(n.objs.functions[j] == m.objs.functions[j]);
                }
            }
            assert forall|j: int| 0 <= j < n.objs.packages.len() implies crate::package::package_wf(
                #[trigger] n.objs.packages[j],
            ) by {
                if j < m.objs.packages.len() {
                    assert(n.objs.packages[j] == m.objs.packages[j]);
                }
            }
            assert forall|j: int|
                0 <= j < n.objs.functions.len() implies ((#[trigger] n.objs.functions[j]).package matches Some(
                q,
            ) ==> q < n.objs.packages.len()) by {
                if j < m.objs.functions.len() {
                    assert(n.objs.functions[j] == m.objs.functions[j]);
                }
            }
            assert forall|j: int|
                0 <= j < n.objs.functions.len() && !on_stack(n.func_stack, j) implies crate::func::jumps_closed(
                (#[trigger] n.objs.functions[j]).code,
            ) by {
                assert(j != fkey);
                assert(n.objs.functions[j] == m.objs.functions[j]);
                assert(!on_stack(m.func_stack, j));
            }
            assert forall|j: int|
                0 <= j < n.objs.functions.len() implies crate::model::function_members_ok(
                n.objs,
                #[trigger] n.objs.functions[j],
            ) by {
                if j < m.objs.functions.len() {
                    assert(n.objs.functions[j] == m.objs.functions[j]);
                    assert(crate::model::function_members_ok(m.objs, m.objs.functions[j]));
                    assert(m.objs.functions[j].package matches Some(q) ==> q
                        < m.objs.packages.len());
                }
            }
            assert forall|w: int| 0 <= w < n.func_stack.len() implies n.objs.functions[(
            #[trigger] n.func_stack[w]) as int].package == n.current_pkg by {
                assert(w == 0);
            }
            assert forall|i: int|
                0 <= i < n.package_keys.len() implies (#[trigger] n.package_keys[i])
                < n.objs.packages.len() by {
                if i < m.package_keys.len() {
                    assert(n.package_keys[i] == m.package_keys[i]);
                }
            }
            assert forall|i: int| 0 <= i < index implies #[trigger] n.package_keys[i]
                != n.package_keys[index as int] by {
                assert(n.package_keys[i] == m.package_keys[i]);
            }
            assert forall|i: int|
                0 <= i < n.package_keys.len() && (n.func_stack.len() == 0 || n.current_pkg != Some(
                    #[trigger] n.package_keys[i],
                )) implies crate::model::package_sealed(n, i) by {
                assert(i < m.package_keys.len());
                assert(n.package_keys[i] == m.package_keys[i]);
                assert(crate::model::package_sealed(m, i));
                let q = m.package_keys[i] as int;
                assert(n.objs.packages[q] == m.objs.packages[q]);
                let c = m.objs.packages[q].members[0]->Function_0;
                assert(n.objs.functions[c as int] == m.objs.functions[c as int]);
                if on_stack(n.func_stack, c as int) {
                    let w = choose|w: int|
                        0 <= w < n.func_stack.len() && #[trigger] n.func_stack[w] == c as int;
                    assert(w == 0);
                }
            }
        }
        index
    }

    /// Ends the generation of a package: the constructor ends by
    /// initialising the package, and no function is under construction.
    pub fn end_package(&mut self, index: i16)
        requires
            old(self).active(),
            package_open(old(self)@, index as int),
        ensures
            final(self).wf(),
            final(self)@ == crate::model::close_function(
                old(self)@,
                seq![CodeWord::Code(Opcode::RETURN_INIT_PKG), CodeWord::Data(index)],
            ),
            final(self)@.func_stack.len() == 0,
            forall|i: int|
                0 <= i < final(self)@.package_keys.len() ==> crate::model::package_sealed(
                    final(self)@,
                    i,
                ),
    {
        proof {
            lemma_active(self@);
        }
        self.emit_inst(Opcode::RETURN_INIT_PKG, index);
        let ghost m1 = self@;
        self.func_stack.pop();
        proof {
            crate::func::lemma_seal_inst(old(self)@.cur().code, Opcode::RETURN_INIT_PKG, index);
            crate::model::lemma_package_open(old(self)@, m1, index as int);
            crate::model::lemma_close_package(m1, index as int);
            assert(self@ =~= crate::model::pop_function(m1));
            assert(self@.func_stack =~= Seq::empty());
        }
    }

    /// Adds the entry function: it imports package 0, loads its `main` and
    /// calls it.
    pub(crate) fn gen_entry(&mut self) -> (fkey: FunctionKey)
        requires
            old(self).wf(),
        ensures
            final(self).wf(),
            (final(self)@, fkey) == crate::rules::gen_entry(old(self)@),
            fkey < final(self)@.objs.functions.len(),
            final(self)@.func_stack == old(self)@.func_stack,
    {
        reveal(crate::rules::gen_entry);
        proof {
            lemma_active(self@);
        }
        // import the 0th pkg and call the main function of the pkg
        let fkey = self.objects.new_function(None, TYPE_DEFAULT_CLOSURE, false, false);
        let ghost o1 = self.objects@;
        let func = self.objects.function_mut(fkey);
        func.emit_inst(Opcode::IMPORT, 0);
        func.emit_inst(Opcode::PUSH_IMM, -1);
        func.emit_code(Opcode::LOAD_FIELD);
        func.emit_code(Opcode::PRE_CALL);
        func.emit_inst(Opcode::CALL, 0);
        func.emit_code(Opcode::RETURN);
        proof {
            let m = old(self)@;
            let f = o1.functions[fkey as int].emit(crate::rules::entry_code());
            assert(func@.code =~= crate::rules::entry_code());
            assert(func@ == f);
            assert(crate::func::jumps_closed(f.code)) by {
                assert forall|at: int|
                    0 <= at < f.code.len() && (#[trigger] f.code[at]) is Code
                        && f.code[at]->Code_0.spec_is_jump() implies false by {}
            }
            assert(crate::func::member_accesses_ok(f.code, 0)) by {
                assert forall|at: int|
                    0 <= at < f.code.len() && crate::func::is_access(
                        #[trigger] f.code[at],
                    ) implies false by {}
            }
            crate::model::lemma_add_function(m, f);
            assert(self@ =~= m.with_objs(
                crate::objects::ObjectsView { functions: m.objs.functions.push(f), ..m.objs },
            ));
            assert(self@ =~= crate::rules::gen_entry(m).0);
        }
        fkey
    }

    /// Completes the artifact: the entry function is added, and the tables
    /// are handed over.
    pub fn into_byte_code(self) -> (b: ByteCode)
        requires
            self.wf(),
            self@.func_stack.len() == 0,
        ensures
            b.wf(),
            b@ == byte_code_of(self@),
    {
        reveal(crate::rules::gen_entry);
        let mut this = self;
        let entry = this.gen_entry();
        let ghost m = this@;
        proof {
                crate::model::lemma_idle(m);
        }
        let b = ByteCode {
            objects: this.objects,
            package_indices: this.package_indices,
            packages: this.packages,
            entry: entry,
        };
        proof {
            assert(b@.objs == m.objs);
            assert(b@.package_keys == m.package_keys);
            assert forall|i: int|
                0 <= i < b@.package_keys.len() implies (#[trigger] b@.package_keys[i])
                < b@.objs.packages.len() && crate::model::package_complete(
                b@.objs,
                b@.package_keys,
                i,
            ) by {
                assert(m.package_keys[i] < m.objs.packages.len());
            }
        }
        b
    }
}

} // verus!

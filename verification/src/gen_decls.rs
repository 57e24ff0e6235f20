//! Declarations, and the generation of a package from a file.

use vstd::prelude::*;
use crate::ast::{Decl, File, Ident, Spec, ValueSpec};
use crate::bytecode::ByteCode;
use crate::codegen::{byte_code_of, CodeGen, initial_state};
use crate::gen_assign::{lemma_targets_ok, targets_ok};
use crate::gen_values::opt_expr;
use crate::model::{
    frame, gen_extends, lemma_gen_extends_refl, lemma_gen_extends_trans, lemma_package_open, package_sealed, refines,
};
use crate::rules::{
    def_consts, def_names, gen_assign_def_var, gen_decl, gen_decls, gen_file, gen_func_def,
    gen_spec, gen_specs,
};
use crate::value::{ErrorKind, GenError, LeftHandSide, TypeError, Value};

verus! {

/// The reference to what an option holds.
fn as_ref(e: &Option<crate::ast::Expr>) -> (r: Option<&crate::ast::Expr>)
    ensures
        opt_expr(r) == *e,
{
    match e {
        Some(x) => Some(x),
        None => None,
    }
}

impl CodeGen {
    /// Defines names as variables.
    fn def_names(&mut self, names: &Vec<Ident>) -> (r: Result<Vec<LeftHandSide>, GenError>)
        requires
            old(self).active(),
        ensures
            match def_names(old(self)@, names@, 0, Seq::empty()) {
                Ok((m, targets)) => r is Ok && r->Ok_0@ == targets && final(self)@ == m,
                Err((m, e)) => r == Err::<Vec<LeftHandSide>, GenError>(e) && final(self)@ == m,
            },
            final(self).active(),
            frame(old(self)@, final(self)@),
            r is Ok ==> gen_extends(old(self)@, final(self)@),
            r is Ok ==> targets_ok(final(self)@, r->Ok_0@),
    {
        let ghost m0 = self@;
        let mut out: Vec<LeftHandSide> = Vec::new();
        let mut i: usize = 0;
        proof {
            lemma_gen_extends_refl(m0);
        }
        while i < names.len()
            invariant
                i <= names.len(),
                self.active(),
                m0 == old(self)@,
                gen_extends(m0, self@),
                frame(m0, self@),
                targets_ok(self@, out@),
                def_names(m0, names@, 0, Seq::empty()) == def_names(self@, names@, i as int, out@),
            decreases names.len() - i,
        {
            let ghost m1 = self@;
            let ghost before = out@;
            let idx = self.add_local_or_resolve_ident(&names[i], true)?;
            out.push(LeftHandSide::Primitive(idx));
            proof {
                lemma_gen_extends_trans(m0, m1, self@);
                lemma_targets_ok(m1, self@, before);
            }
            i = i + 1;
        }
        Ok(out)
    }

    /// Defines constants: as many values as names, each a basic literal.
    pub fn gen_def_const(&mut self, vs: &ValueSpec) -> (r: Result<(), GenError>)
        requires
            old(self).active(),
        ensures
            refines(r, final(self)@, crate::rules::gen_def_const(old(self)@, *vs)),
            vs.names.len() != vs.values.len() ==> final(self)@ == old(self)@,
            final(self).active(),
            frame(old(self)@, final(self)@),
            r is Ok ==> gen_extends(old(self)@, final(self)@),
    {
        reveal(crate::rules::gen_def_const);
        let ghost m0 = self@;
        if vs.names.len() != vs.values.len() {
            let pos: usize = if vs.names.len() > 0 {
                vs.names[0].pos
            } else {
                0
            };
            return Err(
                GenError {
                    pos,
                    kind: ErrorKind::AssignMismatch(vs.names.len(), vs.values.len()),
                },
            );
        }
        let mut i: usize = 0;
        proof {
            lemma_gen_extends_refl(m0);
        }
        while i < vs.names.len()
            invariant
                i <= vs.names.len(),
                vs.names.len() == vs.values.len(),
                self.active(),
                m0 == old(self)@,
                gen_extends(m0, self@),
                frame(m0, self@),
                def_consts(m0, *vs, 0) == def_consts(self@, *vs, i as int),
            decreases vs.names.len() - i,
        {
            reveal(crate::rules::gen_def_const);
            let ghost m1 = self@;
            let val = self.value_from_basic_literal(as_ref(&vs.typ), &vs.values[i])?;
            let ghost m2 = self@;
            self.current_func_add_const_def(vs.names[i].pos, vs.names[i].entity, val)?;
            proof {
                lemma_gen_extends_trans(m0, m1, m2);
                lemma_gen_extends_trans(m0, m2, self@);
            }
            i = i + 1;
        }
        Ok(())
    }

    /// Lowers one item of a general declaration.
    pub fn gen_spec(&mut self, spec: &Spec) -> (r: Result<(), GenError>)
        requires
            old(self).active(),
        ensures
            refines(r, final(self)@, gen_spec(old(self)@, *spec)),
            final(self).active(),
            frame(old(self)@, final(self)@),
            r is Ok ==> gen_extends(old(self)@, final(self)@),
        decreases spec, 0nat,
    {
        reveal_with_fuel(gen_spec, 1);
        let ghost m0 = self@;
        match spec {
            Spec::Import(pos) => Err(GenError { pos: *pos, kind: ErrorKind::NotImplemented }),
            Spec::Type(name, typ) => {
                let t = self.get_or_gen_type(typ)?;
                let ghost m1 = self@;
                self.current_func_add_const_def(name.pos, name.entity, Value::Type(t))?;
                proof {
                    lemma_gen_extends_trans(m0, m1, self@);
                }
                Ok(())
            },
            Spec::Var(vs) => {
                let pos: usize = if vs.names.len() > 0 {
                    vs.names[0].pos
                } else {
                    0
                };
                let lhs = self.def_names(&vs.names)?;
                let ghost m1 = self@;
                self.gen_assign_def_var(&lhs, &vs.values, as_ref(&vs.typ), pos)?;
                proof {
                    lemma_gen_extends_trans(m0, m1, self@);
                }
                Ok(())
            },
            Spec::Const(vs) => self.gen_def_const(vs),
        }
    }

    /// Lowers a general declaration: its items, in order.
    pub fn visit_stmt_decl_gen(&mut self, specs: &Vec<Spec>) -> (r: Result<(), GenError>)
        requires
            old(self).active(),
        ensures
            refines(r, final(self)@, gen_specs(old(self)@, *specs, 0)),
            final(self).active(),
            frame(old(self)@, final(self)@),
            r is Ok ==> gen_extends(old(self)@, final(self)@),
        decreases specs, specs.len(),
    {
        reveal_with_fuel(gen_specs, 1);
        let ghost m0 = self@;
        let mut i: usize = 0;
        proof {
            lemma_gen_extends_refl(m0);
        }
        while i < specs.len()
            invariant
                i <= specs.len(),
                self.active(),
                m0 == old(self)@,
                gen_extends(m0, self@),
                frame(m0, self@),
                gen_specs(m0, *specs, 0) == gen_specs(self@, *specs, i as int),
            decreases specs.len() - i,
        {
            reveal_with_fuel(gen_specs, 1);
            reveal_with_fuel(gen_spec, 1);
            let ghost m1 = self@;
            self.gen_spec(&specs[i])?;
            proof {
                lemma_gen_extends_trans(m0, m1, self@);
            }
            i = i + 1;
        }
        Ok(())
    }

    /// Lowers the declaration of a function or a method. A method is
    /// attached to the struct type of its receiver; a function becomes a
    /// member of the package. Any other declaration is lowered as what it is.
    pub fn visit_stmt_decl_func(&mut self, decl: &Decl) -> (r: Result<(), GenError>)
        requires
            old(self).active(),
        ensures
            refines(r, final(self)@, gen_decl(old(self)@, *decl)),
            final(self).active(),
            frame(old(self)@, final(self)@),
            r is Ok ==> gen_extends(old(self)@, final(self)@),
        decreases decl, 0nat,
    {
        reveal_with_fuel(gen_decl, 1);
        reveal_with_fuel(gen_func_def, 1);
        reveal_with_fuel(gen_specs, 1);
        let ghost m0 = self@;
        let fdecl = match decl {
            Decl::Func(fd) => fd,
            Decl::Gen(specs) => {
                return self.visit_stmt_decl_gen(specs);
            },
            Decl::Bad(pos) => {
                return Err(GenError { pos: *pos, kind: ErrorKind::NotImplemented });
            },
        };
        let body = match &fdecl.body {
            Some(b) => b,
            None => {
                return Err(GenError { pos: fdecl.pos, kind: ErrorKind::NotImplemented });
            },
        };
        match &fdecl.recv {
            // this is a struct method
            Some(fields) => {
                if fields.len() == 0 {
                    return Err(
                        GenError { pos: fdecl.pos, kind: ErrorKind::Type(TypeError::NotAStruct) },
                    );
                }
                let fkey = self.gen_func_def(Some(fields), &fdecl.typ, body, fdecl.pos)?;
                let ghost m1 = self@;
                let t = self.get_or_gen_type(&fields[0].typ)?;
                let ghost m2 = self@;
                self.attach_method(fdecl.pos, t, &fdecl.name.name, fkey)?;
                proof {
                    lemma_gen_extends_trans(m0, m1, m2);
                    lemma_gen_extends_trans(m0, m2, self@);
                }
                Ok(())
            },
            None => {
                let fkey = self.gen_func_def(None, &fdecl.typ, body, fdecl.pos)?;
                let ghost m1 = self@;
                self.add_func_member(&fdecl.name, fkey)?;
                proof {
                    lemma_gen_extends_trans(m0, m1, self@);
                }
                Ok(())
            },
        }
    }

    /// Lowers a declaration.
    pub fn visit_decl(&mut self, decl: &Decl) -> (r: Result<(), GenError>)
        requires
            old(self).active(),
        ensures
            refines(r, final(self)@, gen_decl(old(self)@, *decl)),
            final(self).active(),
            frame(old(self)@, final(self)@),
            r is Ok ==> gen_extends(old(self)@, final(self)@),
        decreases decl, 1nat,
    {
        reveal_with_fuel(gen_decl, 1);
        reveal_with_fuel(gen_specs, 1);
        match decl {
            Decl::Bad(pos) => Err(GenError { pos: *pos, kind: ErrorKind::NotImplemented }),
            Decl::Gen(specs) => self.visit_stmt_decl_gen(specs),
            Decl::Func(_) => self.visit_stmt_decl_func(decl),
        }
    }

    /// Generates a package from a file: the declarations are lowered into
    /// the package's constructor, which is the first member of the package
    /// and ends by initialising the package. Where a declaration fails, the
    /// constructor is completed all the same: the generator stays in order,
    /// with no function under construction, and holds the rejected package
    /// as far as it came.
    pub fn gen(&mut self, f: &File) -> (r: Result<(), GenError>)
        requires
            old(self).wf(),
            old(self)@.func_stack.len() == 0,
        ensures
            refines(r, final(self)@, gen_file(old(self)@, *f)),
            final(self).wf(),
            final(self)@.func_stack.len() == 0,
            forall|i: int|
                0 <= i < final(self)@.package_keys.len() ==> package_sealed(final(self)@, i),
    {
        reveal(crate::rules::gen_file);
        reveal_with_fuel(gen_decls, 1);
        if self.package_count() >= 32767 {
            proof {
                crate::model::lemma_idle(self@);
            }
            return Err(GenError { pos: f.name.pos, kind: ErrorKind::Overflow });
        }
        let index = self.begin_package(&f.name.name);
        let ghost m1 = self@;
        let mut i: usize = 0;
        proof {
            lemma_gen_extends_refl(m1);
        }
        while i < f.decls.len()
            invariant
                i <= f.decls.len(),
                self.active(),
                m1 == crate::rules::open_package(old(self)@, f.name.name@),
                old(self)@.package_keys.len() < i16::MAX,
                index == old(self)@.package_keys.len(),
                m1.func_stack.len() > 0,
                crate::model::gen_wf(m1),
                crate::model::package_open(m1, index as int),
                gen_extends(m1, self@),
                frame(m1, self@),
                gen_decls(m1, f.decls, 0) == gen_decls(self@, f.decls, i as int),
            decreases f.decls.len() - i,
        {
            reveal_with_fuel(gen_decls, 1);
            reveal(crate::rules::gen_file);
            let ghost m2 = self@;
            match self.visit_decl(&f.decls[i]) {
                Ok(()) => {},
                Err(e) => {
                    // the package is rejected: its constructor is completed,
                    // so that no function is left under construction
                    proof {
                        crate::model::lemma_package_open_frame(m1, self@, index as int);
                    }
                    self.end_package(index);
                    return Err(e);
                },
            }
            proof {
                lemma_gen_extends_trans(m1, m2, self@);
            }
            i = i + 1;
        }
        proof {
            lemma_package_open(m1, self@, index as int);
        }
        self.end_package(index);
        Ok(())
    }

    /// Compiles a file: a new generator generates the package and completes
    /// the artifact. A file is compiled as a whole or rejected.
    pub fn compile(f: &File) -> (r: Result<ByteCode, GenError>)
        ensures
            match gen_file(initial_state(), *f) {
                Ok((m, _)) => r is Ok && r->Ok_0@ == byte_code_of(m) && r->Ok_0.wf(),
                Err((_, e)) => r is Err && r->Err_0 == e,
            },
    {
        let mut code_gen = CodeGen::new();
        match code_gen.gen(f) {
            Ok(()) => Ok(code_gen.into_byte_code()),
            Err(e) => Err(e),
        }
    }
}

} // verus!

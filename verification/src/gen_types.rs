//! Types: from a type expression to a type object.

use vstd::prelude::*;
use crate::ast::{Expr, Field, FuncType, Ident};
use crate::codegen::CodeGen;
use crate::model::{
    frame, gen_extends, lemma_gen_extends_trans, refines,
};
use crate::objects::{names_view, TypeData};
use crate::rules::{
    closure_type, field_types, gen_type, last_param_type, named_type, struct_members, struct_names,
    type_default, type_of_value,
};
use crate::value::{EntIndex, ErrorKind, GenError, TypeError, TypeKey, Value};

verus! {

impl CodeGen {
    /// The type that a value is, where it is one of the table of types.
    fn type_of_value(&self, pos: usize, v: Value) -> (r: Result<TypeKey, GenError>)
        requires
            self.active(),
        ensures
            refines(r, self@, type_of_value(self@, pos, v)),
            r is Ok ==> r->Ok_0 < self@.objs.types.len(),
    {
        match v {
            Value::Type(t) => {
                if t < self.objects().types().len() {
                    Ok(t)
                } else {
                    Err(GenError { pos, kind: ErrorKind::Type(TypeError::NotAType) })
                }
            },
            _ => Err(GenError { pos, kind: ErrorKind::Type(TypeError::NotAType) }),
        }
    }

    /// The type that an identifier names.
    fn named_type(&mut self, ident: &Ident) -> (r: Result<TypeKey, GenError>)
        requires
            old(self).active(),
        ensures
            refines(r, final(self)@, named_type(old(self)@, *ident)),
            final(self).active(),
            frame(old(self)@, final(self)@),
            r is Ok ==> gen_extends(old(self)@, final(self)@),
            r is Ok ==> r->Ok_0 < final(self)@.objs.types.len(),
    {
        reveal(crate::rules::named_type);
        proof {
            crate::model::lemma_active(self@);
            crate::model::lemma_gen_extends_refl(self@);
        }
        if let Some(t) = self.objects().basic_type(&ident.name) {
            return Ok(t);
        }
        let idx = self.resolve_ident(ident)?;
        proof {
            crate::model::lemma_active(self@);
        }
        match idx {
            EntIndex::Const(i) => {
                let v = self.objects().function(self.cur_key()).const_val(i);
                self.type_of_value(ident.pos, v)
            },
            EntIndex::PackageMember(i) => {
                let pk = self.current_pkg().unwrap();
                let v = self.objects().package(pk).member(i);
                self.type_of_value(ident.pos, v)
            },
            _ => Err(GenError { pos: ident.pos, kind: ErrorKind::Type(TypeError::NotAType) }),
        }
    }

    /// The type that a type expression denotes. A type that is not named is
    /// added to the table of types.
    pub fn get_or_gen_type(&mut self, expr: &Expr) -> (r: Result<TypeKey, GenError>)
        requires
            old(self).active(),
        ensures
            refines(r, final(self)@, gen_type(old(self)@, *expr)),
            final(self).active(),
            frame(old(self)@, final(self)@),
            r is Ok ==> gen_extends(old(self)@, final(self)@),
            r is Ok ==> r->Ok_0 < final(self)@.objs.types.len(),
        decreases expr, 0nat,
    {
        reveal_with_fuel(gen_type, 1);
        reveal_with_fuel(struct_members, 1);
        reveal_with_fuel(field_types, 1);
        reveal_with_fuel(closure_type, 1);
        let ghost m0 = self@;
        match expr {
            Expr::Ident(ident) => self.named_type(ident),
            Expr::Array(pos, len, elt) => {
                if len.is_some() {
                    return Err(GenError { pos: *pos, kind: ErrorKind::NotImplemented });
                }
                let t = self.get_or_gen_type(elt)?;
                let ghost m1 = self@;
                let r = self.new_type(TypeData::Slice(t));
                proof {
                    lemma_gen_extends_trans(m0, m1, self@);
                }
                Ok(r)
            },
            Expr::MapType(_, k, v) => {
                let kt = self.get_or_gen_type(k)?;
                let ghost m1 = self@;
                let vt = self.get_or_gen_type(v)?;
                let ghost m2 = self@;
                let r = self.new_type(TypeData::MapOf(kt, vt));
                proof {
                    lemma_gen_extends_trans(m0, m1, m2);
                    lemma_gen_extends_trans(m0, m2, self@);
                }
                Ok(r)
            },
            Expr::Struct(pos, fields) => {
                let (members, names) = self.struct_members(*pos, fields)?;
                let ghost m1 = self@;
                let r = self.new_type(TypeData::Struct(members, names));
                proof {
                    lemma_gen_extends_trans(m0, m1, self@);
                }
                Ok(r)
            },
            Expr::Interface(_, methods) => {
                let ts = self.field_types(methods, Vec::new(), false)?;
                let ghost m1 = self@;
                let r = self.new_type(TypeData::Interface(ts));
                proof {
                    lemma_gen_extends_trans(m0, m1, self@);
                }
                Ok(r)
            },
            Expr::Func(_, ft) => self.closure_type(Vec::new(), ft),
            Expr::Star(_, x) => {
                let t = self.get_or_gen_type(x)?;
                let ghost m1 = self@;
                let r = self.new_type(TypeData::Boxed(t));
                proof {
                    lemma_gen_extends_trans(m0, m1, self@);
                }
                Ok(r)
            },
            Expr::Ellipsis(pos, _) => Err(
                GenError { pos: *pos, kind: ErrorKind::Type(TypeError::MisplacedVariadic) },
            ),
            Expr::Chan(pos, _) => Err(GenError { pos: *pos, kind: ErrorKind::NotImplemented }),
            _ => Err(GenError { pos: expr.pos(), kind: ErrorKind::Type(TypeError::NotAType) }),
        }
    }

    /// The type of the last parameter of a function, which alone may be
    /// variadic.
    fn last_param_type(&mut self, expr: &Expr) -> (r: Result<TypeKey, GenError>)
        requires
            old(self).active(),
        ensures
            refines(r, final(self)@, last_param_type(old(self)@, *expr)),
            final(self).active(),
            frame(old(self)@, final(self)@),
            r is Ok ==> gen_extends(old(self)@, final(self)@),
            r is Ok ==> r->Ok_0 < final(self)@.objs.types.len(),
        decreases expr, 1nat,
    {
        reveal_with_fuel(last_param_type, 1);
        reveal_with_fuel(gen_type, 1);
        let ghost m0 = self@;
        match expr {
            Expr::Ellipsis(pos, elt) => match elt {
                Some(x) => {
                    let t = self.get_or_gen_type(x)?;
                    let ghost m1 = self@;
                    let r = self.new_type(TypeData::Variadic(t));
                    proof {
                        lemma_gen_extends_trans(m0, m1, self@);
                    }
                    Ok(r)
                },
                None => Err(
                    GenError { pos: *pos, kind: ErrorKind::Type(TypeError::MisplacedVariadic) },
                ),
            },
            _ => self.get_or_gen_type(expr),
        }
    }

    /// The types of the fields, one for each field, after `acc`.
    pub(crate) fn field_types(
        &mut self,
        fields: &Vec<Field>,
        acc: Vec<TypeKey>,
        variadic_last: bool,
    ) -> (r:
        Result<Vec<TypeKey>, GenError>)
        requires
            old(self).active(),
        ensures
            match field_types(old(self)@, *fields, 0, acc@, variadic_last) {
                Ok((m, ts)) => r is Ok && r->Ok_0@ == ts && final(self)@ == m,
                Err((m, e)) => r == Err::<Vec<TypeKey>, GenError>(e) && final(self)@ == m,
            },
            final(self).active(),
            frame(old(self)@, final(self)@),
            r is Ok ==> gen_extends(old(self)@, final(self)@),
        decreases fields, fields.len(),
    {
        reveal_with_fuel(field_types, 1);
        let ghost m0 = self@;
        let mut out = acc;
        let mut i: usize = 0;
        proof {
            crate::model::lemma_gen_extends_refl(m0);
        }
        while i < fields.len()
            invariant
                i <= fields.len(),
                self.active(),
                m0 == old(self)@,
                gen_extends(m0, self@),
                frame(m0, self@),
                field_types(m0, *fields, 0, acc@, variadic_last) == field_types(
                    self@,
                    *fields,
                    i as int,
                    out@,
                    variadic_last,
                ),
            decreases fields.len() - i,
        {
            reveal_with_fuel(field_types, 1);
            reveal_with_fuel(last_param_type, 1);
            reveal_with_fuel(gen_type, 1);
            let ghost m1 = self@;
            let t = if variadic_last && i == fields.len() - 1 {
                self.last_param_type(&fields[i].typ)?
            } else {
                self.get_or_gen_type(&fields[i].typ)?
            };
            out.push(t);
            proof {
                lemma_gen_extends_trans(m0, m1, self@);
            }
            i = i + 1;
        }
        Ok(out)
    }

    /// The members of a struct: one member for each name of each field.
    fn struct_members(&mut self, pos: usize, fields: &Vec<Field>) -> (r: Result<
        (Vec<Value>, Vec<(String, i16)>),
        GenError,
    >)
        requires
            old(self).active(),
        ensures
            match struct_members(old(self)@, pos, *fields, 0, (Seq::empty(), Seq::empty())) {
                Ok((m, acc)) => r is Ok && r->Ok_0.0@ == acc.0 && names_view(r->Ok_0.1@) == acc.1
                    && final(self)@ == m,
                Err((m, e)) => r == Err::<(Vec<Value>, Vec<(String, i16)>), GenError>(e)
                    && final(self)@ == m,
            },
            final(self).active(),
            frame(old(self)@, final(self)@),
            r is Ok ==> gen_extends(old(self)@, final(self)@),
        decreases fields, fields.len(),
    {
        reveal_with_fuel(struct_members, 1);
        let ghost m0 = self@;
        let mut members: Vec<Value> = Vec::new();
        let mut names: Vec<(String, i16)> = Vec::new();
        let mut i: usize = 0;
        assert(names_view(names@) =~= Seq::empty());
        proof {
            crate::model::lemma_gen_extends_refl(m0);
        }
        while i < fields.len()
            invariant
                i <= fields.len(),
                self.active(),
                m0 == old(self)@,
                gen_extends(m0, self@),
                frame(m0, self@),
                struct_members(m0, pos, *fields, 0, (Seq::empty(), Seq::empty())) == struct_members(
                    self@,
                    pos,
                    *fields,
                    i as int,
                    (members@, names_view(names@)),
                ),
            decreases fields.len() - i,
        {
            reveal_with_fuel(struct_members, 1);
            reveal_with_fuel(gen_type, 1);
            let ghost m1 = self@;
            let t = self.get_or_gen_type(&fields[i].typ)?;
            proof {
                lemma_gen_extends_trans(m0, m1, self@);
            }
            let idents = &fields[i].names;
            let ghost before = (members@, names_view(names@));
            let mut j: usize = 0;
            while j < idents.len()
                invariant
                    j <= idents.len(),
                    self.active(),
                    frame(m0, self@),
                    m0 == old(self)@,
                    idents == &fields[i as int].names,
                    i < fields.len(),
                    struct_members(
                        m0,
                        pos,
                        *fields,
                        0,
                        (Seq::empty(), Seq::empty()),
                    ) == match struct_names(pos, idents@, 0, t, before) {
                        Ok(acc1) => struct_members(self@, pos, *fields, i + 1, acc1),
                        Err(x) => Err((self@, x)),
                    },
                    struct_names(pos, idents@, 0, t, before) == struct_names(
                        pos,
                        idents@,
                        j as int,
                        t,
                        (members@, names_view(names@)),
                    ),
                decreases idents.len() - j,
            {
                if members.len() >= 32767 {
                    return Err(GenError { pos, kind: ErrorKind::Overflow });
                }
                let index: i16 = members.len() as i16;
                let ghost old_names = names_view(names@);
                members.push(Value::Type(t));
                names.push((idents[j].name.clone(), index));
                proof {
                    assert(names_view(names@) =~= old_names.push((idents@[j as int].name@, index)));
                }
                j = j + 1;
            }
            i = i + 1;
        }
        Ok((members, names))
    }

    /// The type of a function: the types of its parameters, after those of a
    /// receiver in `recv`, and of its results.
    pub(crate) fn closure_type(&mut self, recv: Vec<TypeKey>, ft: &FuncType) -> (r: Result<
        TypeKey,
        GenError,
    >)
        requires
            old(self).active(),
        ensures
            refines(r, final(self)@, closure_type(old(self)@, recv@, *ft)),
            final(self).active(),
            frame(old(self)@, final(self)@),
            r is Ok ==> gen_extends(old(self)@, final(self)@),
            r is Ok ==> r->Ok_0 < final(self)@.objs.types.len(),
        decreases ft, 0nat,
    {
        reveal_with_fuel(closure_type, 1);
        reveal_with_fuel(field_types, 1);
        let ghost m0 = self@;
        let params = self.field_types(&ft.params, recv, true)?;
        let ghost m1 = self@;
        let results = self.field_types(&ft.results, Vec::new(), false)?;
        let ghost m2 = self@;
        let r = self.new_type(TypeData::Closure(params, results));
        proof {
            lemma_gen_extends_trans(m0, m1, m2);
            lemma_gen_extends_trans(m0, m2, self@);
        }
        Ok(r)
    }

    /// The zero value of the type that a type expression denotes.
    pub fn get_type_default(&mut self, expr: &Expr) -> (r: Result<Value, GenError>)
        requires
            old(self).active(),
        ensures
            refines(r, final(self)@, type_default(old(self)@, *expr)),
            final(self).active(),
            frame(old(self)@, final(self)@),
            r is Ok ==> gen_extends(old(self)@, final(self)@),
    {
        reveal(crate::rules::type_default);
        let t = self.get_or_gen_type(expr)?;
        Ok(self.objects().typ(t).zero_val())
    }
}

} // verus!

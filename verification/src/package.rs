//! A package: its members, and which names they are bound to.

use vstd::prelude::*;
use crate::value::{assoc_find, assoc_get, EntityKey, lemma_assoc_position, Value};

verus! {

/// A package object.
pub struct Package {
    name: String,
    members: Vec<Value>,
    member_indices: Vec<(EntityKey, i16)>,
    main_func: Option<i16>,
    vars: Vec<(i16, i16)>,
}

/// What a `Package` holds, as mathematical values.
pub struct PackageView {
    pub name: Seq<char>,
    /// The members in the order in which they were added.
    pub members: Seq<Value>,
    /// The names bound in the package, each with the index of its member.
    pub member_indices: Seq<(EntityKey, i16)>,
    /// The member that is the function `main`, once it was declared.
    pub main_func: Option<i16>,
    /// The variables: the index of the member, and the local slot of the
    /// constructor that holds the variable while the constructor runs.
    pub vars: Seq<(i16, i16)>,
}

impl View for Package {
    type V = PackageView;

    closed spec fn view(&self) -> PackageView {
        PackageView {
            name: self.name@,
            members: self.members@,
            member_indices: self.member_indices@,
            main_func: self.main_func,
            vars: self.vars@,
        }
    }
}

/// The package's tables name members that it has.
pub open spec fn package_wf(p: PackageView) -> bool {
    &&& p.members.len() <= i16::MAX
    &&& forall|k: int|
        0 <= k < p.member_indices.len() ==> 0 <= (#[trigger] p.member_indices[k]).1
            < p.members.len()
    &&& forall|k: int| 0 <= k < p.vars.len() ==> 0 <= (#[trigger] p.vars[k]).0 < p.members.len()
    &&& p.main_func matches Some(i) ==> 0 <= i < p.members.len()
}

/// `b` is `a` after more work: what `a` held is still there, at its place.
pub open spec fn package_extends(a: PackageView, b: PackageView) -> bool {
    &&& b.name == a.name
    &&& a.members.is_prefix_of(b.members)
    &&& a.member_indices.is_prefix_of(b.member_indices)
    &&& a.vars.is_prefix_of(b.vars)
}

impl PackageView {
    /// The index of the member that the name is bound to, if any.
    pub open spec fn member_index(self, entity: EntityKey) -> Option<i16> {
        assoc_find(self.member_indices, entity)
    }

    /// The package with the name bound to the member, unless the name is bound already.
    pub open spec fn bind(self, entity: Option<EntityKey>, index: i16) -> PackageView {
        match entity {
            Some(e) => if self.member_index(e) is None {
                PackageView { member_indices: self.member_indices.push((e, index)), ..self }
            } else {
                self
            },
            None => self,
        }
    }

    /// Appends a member and binds the name to it. `None` when the package is full.
    pub open spec fn add_member(self, entity: Option<EntityKey>, val: Value) -> Option<
        (PackageView, i16),
    > {
        if self.members.len() >= i16::MAX {
            None
        } else {
            let index = self.members.len() as i16;
            Some((PackageView { members: self.members.push(val), ..self }.bind(entity, index), index))
        }
    }

    /// Appends a member for a variable that the constructor holds in a local
    /// slot, and binds the name to it. `None` when the package is full.
    pub open spec fn add_var(self, entity: EntityKey, local: i16) -> Option<(PackageView, i16)> {
        match self.add_member(Some(entity), Value::Nil) {
            Some((p, index)) => Some((PackageView { vars: p.vars.push((index, local)), ..p }, index)),
            None => None,
        }
    }
}

impl Package {
    /// Whether the package's tables name members that it has.
    pub open spec fn wf(&self) -> bool {
        package_wf(self@)
    }

    /// A package without members.
    pub fn new(name: String) -> (p: Package)
        ensures
            p.wf(),
            p@ == (PackageView {
                name: name@,
                members: Seq::empty(),
                member_indices: Seq::empty(),
                main_func: None,
                vars: Seq::empty(),
            }),
    {
        Package {
            name,
            members: Vec::new(),
            member_indices: Vec::new(),
            main_func: None,
            vars: Vec::new(),
        }
    }

    pub fn name(&self) -> (r: &String)
        ensures
            r@ == self@.name,
    {
        &self.name
    }

    pub fn members(&self) -> (r: &Vec<Value>)
        ensures
            r@ == self@.members,
    {
        &self.members
    }

    pub fn member_indices(&self) -> (r: &Vec<(EntityKey, i16)>)
        ensures
            r@ == self@.member_indices,
    {
        &self.member_indices
    }

    pub fn vars(&self) -> (r: &Vec<(i16, i16)>)
        ensures
            r@ == self@.vars,
    {
        &self.vars
    }

    pub fn main_func(&self) -> (r: Option<i16>)
        ensures
            r == self@.main_func,
    {
        self.main_func
    }

    /// The index of the member that a name is bound to.
    pub fn get_member_index(&self, entity: EntityKey) -> (r: Option<i16>)
        ensures
            r == self@.member_index(entity),
            self.wf() && r is Some ==> 0 <= r->Some_0 < self@.members.len(),
    {
        let r = assoc_get(&self.member_indices, entity);
        proof {
            lemma_assoc_position(self.member_indices@, entity);
        }
        r
    }

    /// The member at an index.
    pub fn member(&self, i: i16) -> (r: Value)
        requires
            0 <= i < self@.members.len(),
        ensures
            r == self@.members[i as int],
    {
        self.members[i as usize]
    }

    /// Appends a member and binds the name to it, unless the name is bound
    /// already. `None`, with nothing changed, when the package is full.
    pub fn add_member(&mut self, entity: Option<EntityKey>, val: Value) -> (r: Option<i16>)
        requires
            old(self).wf(),
        ensures
            final(self).wf(),
            package_extends(old(self)@, final(self)@),
            final(self)@.main_func == old(self)@.main_func,
            match old(self)@.add_member(entity, val) {
                Some((p, index)) => r == Some(index) && final(self)@ == p,
                None => r is None && final(self)@ == old(self)@,
            },
            r is Some ==> r->Some_0 == old(self)@.members.len(),
    {
        if self.members.len() >= 32767 {
            return None;
        }
        let index: i16 = self.members.len() as i16;
        self.members.push(val);
        match entity {
            Some(e) => {
                if assoc_get(&self.member_indices, e).is_none() {
                    self.member_indices.push((e, index));
                }
            },
            None => {},
        }
        Some(index)
    }

    /// Appends a member for a variable that the constructor holds in a local
    /// slot, and binds the name to it. `None`, with nothing changed, when the
    /// package is full.
    pub fn add_var(&mut self, entity: EntityKey, local: i16) -> (r: Option<i16>)
        requires
            old(self).wf(),
        ensures
            final(self).wf(),
            package_extends(old(self)@, final(self)@),
            final(self)@.main_func == old(self)@.main_func,
            match old(self)@.add_var(entity, local) {
                Some((p, index)) => r == Some(index) && final(self)@ == p,
                None => r is None && final(self)@ == old(self)@,
            },
    {
        match self.add_member(Some(entity), Value::Nil) {
            Some(index) => {
                self.vars.push((index, local));
                Some(index)
            },
            None => None,
        }
    }

    /// Records which member is the function `main`.
    pub fn set_main_func(&mut self, index: i16)
        requires
            old(self).wf(),
            0 <= index < old(self)@.members.len(),
        ensures
            final(self).wf(),
            final(self)@ == (PackageView { main_func: Some(index), ..old(self)@ }),
    {
        self.main_func = Some(index);
    }
}

} // verus!

//! The object tables: functions, types, strings, slices, maps and packages.
//! A key is the position of an object in its table; nothing is ever removed.

use vstd::prelude::*;
use crate::func::{Function, function_extends, function_wf, FunctionView};
use crate::package::{Package, package_extends, package_wf, PackageView};
use crate::value::{
    assoc_position, FunctionKey, lemma_assoc_position, lemma_assoc_position_is, MapKey, PackageKey,
    StringKey, TypeKey, Value,
};

verus! {

/// What a type is made of.
pub enum TypeData {
    Bool,
    Int,
    Float64,
    Str,
    Slice(TypeKey),
    MapOf(TypeKey, TypeKey),
    /// The members in order, and the index of each member that has a name.
    Struct(Vec<Value>, Vec<(String, i16)>),
    Interface(Vec<TypeKey>),
    Closure(Vec<TypeKey>, Vec<TypeKey>),
    Boxed(TypeKey),
    Variadic(TypeKey),
}

/// A type object: what it is made of, and its zero value.
pub struct Type {
    data: TypeData,
    zero: Value,
}

/// A map object: the value of a missing key, and the entries in the order in
/// which their keys first came.
pub struct MapObj {
    default: Value,
    entries: Vec<(Value, Value)>,
}

/// `TypeData` as mathematical values.
pub enum TypeDataView {
    Bool,
    Int,
    Float64,
    Str,
    Slice(TypeKey),
    MapOf(TypeKey, TypeKey),
    Struct(Seq<Value>, Seq<(Seq<char>, i16)>),
    Interface(Seq<TypeKey>),
    Closure(Seq<TypeKey>, Seq<TypeKey>),
    Boxed(TypeKey),
    Variadic(TypeKey),
}

pub struct TypeView {
    pub data: TypeDataView,
    pub zero: Value,
}

pub struct MapView {
    pub default: Value,
    pub entries: Seq<(Value, Value)>,
}

impl View for TypeData {
    type V = TypeDataView;

    open spec fn view(&self) -> TypeDataView {
        match *self {
            TypeData::Bool => TypeDataView::Bool,
            TypeData::Int => TypeDataView::Int,
            TypeData::Float64 => TypeDataView::Float64,
            TypeData::Str => TypeDataView::Str,
            TypeData::Slice(e) => TypeDataView::Slice(e),
            TypeData::MapOf(k, v) => TypeDataView::MapOf(k, v),
            TypeData::Struct(members, names) => TypeDataView::Struct(members@, names_view(names@)),
            TypeData::Interface(methods) => TypeDataView::Interface(methods@),
            TypeData::Closure(params, results) => TypeDataView::Closure(params@, results@),
            TypeData::Boxed(t) => TypeDataView::Boxed(t),
            TypeData::Variadic(t) => TypeDataView::Variadic(t),
        }
    }
}

impl View for Type {
    type V = TypeView;

    closed spec fn view(&self) -> TypeView {
        TypeView { data: self.data@, zero: self.zero }
    }
}

impl View for MapObj {
    type V = MapView;

    closed spec fn view(&self) -> MapView {
        MapView { default: self.default, entries: self.entries@ }
    }
}

/// The keys of the types that every table starts with.
pub const TYPE_BOOL: TypeKey = 0;

pub const TYPE_INT: TypeKey = 1;

pub const TYPE_FLOAT64: TypeKey = 2;

pub const TYPE_STRING: TypeKey = 3;

/// The type of a function without parameters and results.
pub const TYPE_DEFAULT_CLOSURE: TypeKey = 4;

/// The key of the empty string, the zero value of the string type.
pub const EMPTY_STRING: StringKey = 0;

/// The tables.
pub struct Objects {
    functions: Vec<Function>,
    types: Vec<Type>,
    strings: Vec<String>,
    slices: Vec<Vec<Value>>,
    maps: Vec<MapObj>,
    packages: Vec<Package>,
}

/// The tables as mathematical values.
#[verifier::ext_equal]
pub struct ObjectsView {
    pub functions: Seq<FunctionView>,
    pub types: Seq<TypeView>,
    pub strings: Seq<Seq<char>>,
    pub slices: Seq<Seq<Value>>,
    pub maps: Seq<MapView>,
    pub packages: Seq<PackageView>,
}

impl View for Objects {
    type V = ObjectsView;

    closed spec fn view(&self) -> ObjectsView {
        ObjectsView {
            functions: Seq::new(self.functions.len() as nat, |i: int| self.functions[i]@),
            types: Seq::new(self.types.len() as nat, |i: int| self.types[i]@),
            strings: strings_view(self.strings@),
            slices: Seq::new(self.slices.len() as nat, |i: int| self.slices[i]@),
            maps: Seq::new(self.maps.len() as nat, |i: int| self.maps[i]@),
            packages: Seq::new(self.packages.len() as nat, |i: int| self.packages[i]@),
        }
    }
}

/// The names of a struct's members, as mathematical values.
pub open spec fn names_view(names: Seq<(String, i16)>) -> Seq<(Seq<char>, i16)> {
    Seq::new(names.len(), |i: int| (names[i].0@, names[i].1))
}

/// The strings of a table, as mathematical values.
pub open spec fn strings_view(strings: Seq<String>) -> Seq<Seq<char>> {
    Seq::new(strings.len(), |i: int| strings[i]@)
}

/// The types that every table starts with.
pub open spec fn basic_types() -> Seq<TypeView> {
    seq![
        TypeView { data: TypeDataView::Bool, zero: Value::Bool(false) },
        TypeView { data: TypeDataView::Int, zero: Value::Int(0) },
        TypeView { data: TypeDataView::Float64, zero: Value::Float64(0) },
        TypeView { data: TypeDataView::Str, zero: Value::Str(EMPTY_STRING) },
        TypeView { data: TypeDataView::Closure(Seq::empty(), Seq::empty()), zero: Value::Nil },
    ]
}

/// The tables that generation starts from.
pub open spec fn initial_objects() -> ObjectsView {
    ObjectsView {
        functions: Seq::empty(),
        types: basic_types(),
        strings: seq![Seq::<char>::empty()],
        slices: Seq::empty(),
        maps: Seq::empty(),
        packages: Seq::empty(),
    }
}

/// The key of the basic type with the name, if there is one.
pub open spec fn basic_type_of(name: Seq<char>) -> Option<TypeKey> {
    if name == "bool"@ {
        Some(TYPE_BOOL)
    } else if name == "int"@ {
        Some(TYPE_INT)
    } else if name == "float64"@ {
        Some(TYPE_FLOAT64)
    } else if name == "string"@ {
        Some(TYPE_STRING)
    } else {
        None
    }
}

/// Every function and package is in order, and the basic types are there.
pub open spec fn objects_wf(o: ObjectsView) -> bool {
    &&& forall|k: int| 0 <= k < o.functions.len() ==> function_wf(#[trigger] o.functions[k])
    &&& forall|k: int| 0 <= k < o.packages.len() ==> package_wf(#[trigger] o.packages[k])
    &&& basic_types().is_prefix_of(o.types)
    &&& o.strings.len() > 0
    &&& o.strings[0] == Seq::<char>::empty()
}

/// `b` is `a` after more work: no table has shrunk, and what the functions,
/// packages and strings of `a` held is still there, at its place.
pub open spec fn objects_extends(a: ObjectsView, b: ObjectsView) -> bool {
    &&& a.functions.len() <= b.functions.len()
    &&& forall|k: int|
        0 <= k < a.functions.len() ==> function_extends(a.functions[k], #[trigger] b.functions[k])
    &&& a.packages.len() <= b.packages.len()
    &&& forall|k: int|
        0 <= k < a.packages.len() ==> package_extends(a.packages[k], #[trigger] b.packages[k])
    &&& a.types.len() <= b.types.len()
    &&& a.strings.is_prefix_of(b.strings)
    &&& a.slices.len() <= b.slices.len()
    &&& a.maps.len() <= b.maps.len()
}

/// The entries of a map after `key` is set to `val`: the entry with the key
/// gets the value, and a new key comes last.
pub open spec fn entries_insert(entries: Seq<(Value, Value)>, key: Value, val: Value) -> Seq<
    (Value, Value),
> {
    match assoc_position(entries, key) {
        Some(i) => entries.update(i, (key, val)),
        None => entries.push((key, val)),
    }
}

impl ObjectsView {
    pub open spec fn new_str(self, s: Seq<char>) -> (ObjectsView, Value) {
        (ObjectsView { strings: self.strings.push(s), ..self }, Value::Str(self.strings.len() as usize))
    }

    pub open spec fn new_slice(self, vals: Seq<Value>) -> (ObjectsView, Value) {
        (ObjectsView { slices: self.slices.push(vals), ..self }, Value::Slice(self.slices.len() as usize))
    }

    pub open spec fn new_map(self, default: Value) -> (ObjectsView, Value) {
        (
            ObjectsView {
                maps: self.maps.push(MapView { default, entries: Seq::empty() }),
                ..self
            },
            Value::MapVal(self.maps.len() as usize),
        )
    }

    pub open spec fn map_insert(self, m: MapKey, key: Value, val: Value) -> ObjectsView {
        ObjectsView {
            maps: self.maps.update(
                m as int,
                MapView { entries: entries_insert(self.maps[m as int].entries, key, val), ..self.maps[m as int] },
            ),
            ..self
        }
    }

    pub open spec fn new_type(self, data: TypeDataView, zero: Value) -> (ObjectsView, TypeKey) {
        (ObjectsView { types: self.types.push(TypeView { data, zero }), ..self }, self.types.len() as usize)
    }

    pub open spec fn new_function(
        self,
        package: Option<PackageKey>,
        typ: TypeKey,
        variadic: bool,
        is_ctor: bool,
    ) -> (ObjectsView, FunctionKey) {
        (
            ObjectsView {
                functions: self.functions.push(
                    FunctionView {
                        package,
                        typ,
                        variadic,
                        is_ctor,
                        param_count: 0,
                        ret_count: 0,
                        local_alloc: 0,
                        code: Seq::empty(),
                        consts: Seq::empty(),
                        entities: Seq::empty(),
                        upvalues: Seq::empty(),
                    },
                ),
                ..self
            },
            self.functions.len() as usize,
        )
    }

    pub open spec fn new_package(self, name: Seq<char>) -> (ObjectsView, PackageKey) {
        (
            ObjectsView {
                packages: self.packages.push(
                    PackageView {
                        name,
                        members: Seq::empty(),
                        member_indices: Seq::empty(),
                        main_func: None,
                        vars: Seq::empty(),
                    },
                ),
                ..self
            },
            self.packages.len() as usize,
        )
    }

    pub open spec fn with_function(self, k: FunctionKey, f: FunctionView) -> ObjectsView {
        ObjectsView { functions: self.functions.update(k as int, f), ..self }
    }

    pub open spec fn with_package(self, k: PackageKey, p: PackageView) -> ObjectsView {
        ObjectsView { packages: self.packages.update(k as int, p), ..self }
    }

    /// The tables after a member is added to a struct type under a name.
    /// `None` where the type is no struct or the struct is full.
    pub open spec fn add_struct_member(self, t: TypeKey, name: Seq<char>, val: Value) -> Option<
        ObjectsView,
    > {
        match self.types[t as int].data {
            TypeDataView::Struct(members, names) => if members.len() >= i16::MAX {
                None
            } else {
                Some(
                    ObjectsView {
                        types: self.types.update(
                            t as int,
                            TypeView {
                                data: TypeDataView::Struct(
                                    members.push(val),
                                    names.push((name, members.len() as i16)),
                                ),
                                ..self.types[t as int]
                            },
                        ),
                        ..self
                    },
                )
            },
            _ => None,
        }
    }
}

/// Tables whose functions and packages are untouched, and whose other
/// tables have grown or changed past the basic types, are in order.
pub proof fn lemma_core_unchanged(a: ObjectsView, b: ObjectsView)
    requires
        objects_wf(a),
        b.functions == a.functions,
        b.packages == a.packages,
        a.types.len() <= b.types.len(),
        forall|k: int| 0 <= k < 5 ==> b.types[k] == a.types[k],
        a.strings.is_prefix_of(b.strings),
        a.slices.len() <= b.slices.len(),
        a.maps.len() <= b.maps.len(),
    ensures
        objects_wf(b),
        objects_extends(a, b),
{
    assert forall|k: int| 0 <= k < 5 implies basic_types()[k] == b.types[k] by {
        assert(basic_types()[k] == a.types[k]);
    }
    assert(b.strings[0] == a.strings[0]);
}

/// Work after work is more work.
pub proof fn lemma_objects_extends_trans(a: ObjectsView, b: ObjectsView, c: ObjectsView)
    requires
        objects_extends(a, b),
        objects_extends(b, c),
    ensures
        objects_extends(a, c),
{
    assert forall|k: int| 0 <= k < a.functions.len() implies function_extends(
        a.functions[k],
        #[trigger] c.functions[k],
    ) by {
        crate::func::lemma_function_extends_trans(a.functions[k], b.functions[k], c.functions[k]);
    }
    assert forall|k: int| 0 <= k < a.packages.len() implies package_extends(
        a.packages[k],
        #[trigger] c.packages[k],
    ) by {
        assert(package_extends(a.packages[k], b.packages[k]));
        assert(package_extends(b.packages[k], c.packages[k]));
    }
}

/// Whether a string is the text of a literal.
pub fn str_is(s: &String, lit: &str) -> (b: bool)
    ensures
        b == (s@ == lit@),
{
    let t = lit.to_owned();
    *s == t
}

/// Finds the least position of a key among the entries of a map.
pub fn entry_pos(v: &Vec<(Value, Value)>, key: Value) -> (r: Option<usize>)
    ensures
        match r {
            Some(i) => i < v.len() && assoc_position(v@, key) == Some(i as int),
            None => assoc_position(v@, key) is None,
        },
{
    let mut i: usize = 0;
    while i < v.len()
        invariant
            i <= v.len(),
            forall|j: int| 0 <= j < i ==> (#[trigger] v@[j]).0 != key,
        decreases v.len() - i,
    {
        if v[i].0 == key {
            proof {
                lemma_assoc_position_is(v@, key, i as int);
            }
            return Some(i);
        }
        i = i + 1;
    }
    proof {
        lemma_assoc_position(v@, key);
    }
    None
}

impl Type {
    pub fn data(&self) -> (r: &TypeData)
        ensures
            r@ == self@.data,
    {
        &self.data
    }

    pub fn zero_val(&self) -> (r: Value)
        ensures
            r == self@.zero,
    {
        self.zero
    }
}

impl MapObj {
    pub fn default_val(&self) -> (r: Value)
        ensures
            r == self@.default,
    {
        self.default
    }

    pub fn entries(&self) -> (r: &Vec<(Value, Value)>)
        ensures
            r@ == self@.entries,
    {
        &self.entries
    }
}

impl Objects {
    /// Whether every function and package is in order and the basic types are there.
    pub open spec fn wf(&self) -> bool {
        objects_wf(self@)
    }

    /// The tables that generation starts from: the basic types, the type of a
    /// function without parameters and results, and the empty string.
    pub fn new() -> (o: Objects)
        ensures
            o.wf(),
            o@ == initial_objects(),
    {
        let mut types: Vec<Type> = Vec::new();
        types.push(Type { data: TypeData::Bool, zero: Value::Bool(false) });
        types.push(Type { data: TypeData::Int, zero: Value::Int(0) });
        types.push(Type { data: TypeData::Float64, zero: Value::Float64(0) });
        types.push(Type { data: TypeData::Str, zero: Value::Str(EMPTY_STRING) });
        types.push(Type { data: TypeData::Closure(Vec::new(), Vec::new()), zero: Value::Nil });
        let mut strings: Vec<String> = Vec::new();
        strings.push(String::new());
        let o = Objects {
            functions: Vec::new(),
            types,
            strings,
            slices: Vec::new(),
            maps: Vec::new(),
            packages: Vec::new(),
        };
        proof {
            assert(o@.types =~= basic_types());
            assert(o@.strings =~= seq![Seq::<char>::empty()]);
            assert(o@.functions =~= Seq::empty());
            assert(o@.slices =~= Seq::empty());
            assert(o@.maps =~= Seq::empty());
            assert(o@.packages =~= Seq::empty());
        }
        o
    }

    pub fn functions(&self) -> (r: &Vec<Function>)
        ensures
            r.len() == self@.functions.len(),
            forall|k: int| 0 <= k < r.len() ==> (#[trigger] r[k])@ == self@.functions[k],
    {
        &self.functions
    }

    pub fn types(&self) -> (r: &Vec<Type>)
        ensures
            r.len() == self@.types.len(),
            forall|k: int| 0 <= k < r.len() ==> (#[trigger] r[k])@ == self@.types[k],
    {
        &self.types
    }

    pub fn strings(&self) -> (r: &Vec<String>)
        ensures
            strings_view(r@) == self@.strings,
    {
        &self.strings
    }

    pub fn slices(&self) -> (r: &Vec<Vec<Value>>)
        ensures
            r.len() == self@.slices.len(),
            forall|k: int| 0 <= k < r.len() ==> (#[trigger] r[k])@ == self@.slices[k],
    {
        &self.slices
    }

    pub fn maps(&self) -> (r: &Vec<MapObj>)
        ensures
            r.len() == self@.maps.len(),
            forall|k: int| 0 <= k < r.len() ==> (#[trigger] r[k])@ == self@.maps[k],
    {
        &self.maps
    }

    pub fn packages(&self) -> (r: &Vec<Package>)
        ensures
            r.len() == self@.packages.len(),
            forall|k: int| 0 <= k < r.len() ==> (#[trigger] r[k])@ == self@.packages[k],
    {
        &self.packages
    }

    /// The function behind a key.
    pub fn function(&self, k: FunctionKey) -> (r: &Function)
        requires
            k < self@.functions.len(),
        ensures
            r@ == self@.functions[k as int],
    {
        &self.functions[k]
    }

    /// The package behind a key.
    pub fn package(&self, k: PackageKey) -> (r: &Package)
        requires
            k < self@.packages.len(),
        ensures
            r@ == self@.packages[k as int],
    {
        &self.packages[k]
    }

    /// The type behind a key.
    pub fn typ(&self, k: TypeKey) -> (r: &Type)
        requires
            k < self@.types.len(),
        ensures
            r@ == self@.types[k as int],
    {
        &self.types[k]
    }

    /// The function behind a key, to be changed.
    pub fn function_mut(&mut self, k: FunctionKey) -> (r: &mut Function)
        requires
            k < old(self)@.functions.len(),
        ensures
            r@ == old(self)@.functions[k as int],
            final(self)@ =~= old(self)@.with_function(k, final(r)@),
    {
        &mut self.functions[k]
    }

    /// The package behind a key, to be changed.
    pub fn package_mut(&mut self, k: PackageKey) -> (r: &mut Package)
        requires
            k < old(self)@.packages.len(),
        ensures
            r@ == old(self)@.packages[k as int],
            final(self)@ =~= old(self)@.with_package(k, final(r)@),
    {
        &mut self.packages[k]
    }

    /// The key of the basic type with a name.
    pub fn basic_type(&self, name: &String) -> (r: Option<TypeKey>)
        ensures
            r == basic_type_of(name@),
            self.wf() && r is Some ==> r->Some_0 < self@.types.len(),
    {
        if str_is(name, "bool") {
            Some(TYPE_BOOL)
        } else if str_is(name, "int") {
            Some(TYPE_INT)
        } else if str_is(name, "float64") {
            Some(TYPE_FLOAT64)
        } else if str_is(name, "string") {
            Some(TYPE_STRING)
        } else {
            None
        }
    }

    /// Adds a string object.
    pub fn new_str(&mut self, s: String) -> (r: Value)
        requires
            old(self).wf(),
        ensures
            final(self).wf(),
            objects_extends(old(self)@, final(self)@),
            (final(self)@, r) =~= old(self)@.new_str(s@),
    {
        let k: usize = self.strings.len();
        self.strings.push(s);
        proof {
            assert(self@ =~= old(self)@.new_str(s@).0);
            lemma_core_unchanged(old(self)@, self@);
        }
        Value::Str(k)
    }

    /// Adds a slice object that holds the values.
    pub fn new_slice(&mut self, vals: Vec<Value>) -> (r: Value)
        requires
            old(self).wf(),
        ensures
            final(self).wf(),
            objects_extends(old(self)@, final(self)@),
            (final(self)@, r) =~= old(self)@.new_slice(vals@),
    {
        let k: usize = self.slices.len();
        self.slices.push(vals);
        proof {
            assert(self@ =~= old(self)@.new_slice(vals@).0);
            lemma_core_unchanged(old(self)@, self@);
        }
        Value::Slice(k)
    }

    /// Adds an empty map object.
    pub fn new_map(&mut self, default: Value) -> (r: Value)
        requires
            old(self).wf(),
        ensures
            final(self).wf(),
            objects_extends(old(self)@, final(self)@),
            (final(self)@, r) =~= old(self)@.new_map(default),
            r matches Value::MapVal(k) && k == old(self)@.maps.len(),
    {
        let k: usize = self.maps.len();
        self.maps.push(MapObj { default, entries: Vec::new() });
        proof {
            assert(self@ =~= old(self)@.new_map(default).0);
            lemma_core_unchanged(old(self)@, self@);
        }
        Value::MapVal(k)
    }

    /// Sets a key of a map object to a value.
    pub fn map_insert(&mut self, m: MapKey, key: Value, val: Value)
        requires
            old(self).wf(),
            m < old(self)@.maps.len(),
        ensures
            final(self).wf(),
            objects_extends(old(self)@, final(self)@),
            final(self)@ =~= old(self)@.map_insert(m, key, val),
    {
        let found = entry_pos(&self.maps[m].entries, key);
        let obj = &mut self.maps[m];
        match found {
            Some(p) => {
                obj.entries.set(p, (key, val));
            },
            None => {
                obj.entries.push((key, val));
            },
        }
        proof {
            assert(self@ =~= old(self)@.map_insert(m, key, val));
            lemma_core_unchanged(old(self)@, self@);
        }
    }

    /// Adds a type object.
    pub fn new_type(&mut self, data: TypeData, zero: Value) -> (r: TypeKey)
        requires
            old(self).wf(),
        ensures
            final(self).wf(),
            objects_extends(old(self)@, final(self)@),
            (final(self)@, r) =~= old(self)@.new_type(data@, zero),
            r == old(self)@.types.len(),
            forall|k: int|
                0 <= k < old(self)@.types.len() ==> final(self)@.types[k] == old(self)@.types[k],
    {
        let k: usize = self.types.len();
        self.types.push(Type { data, zero });
        proof {
            assert(self@ =~= old(self)@.new_type(data@, zero).0);
            lemma_core_unchanged(old(self)@, self@);
        }
        k
    }

    /// Adds an empty function.
    pub fn new_function(
        &mut self,
        package: Option<PackageKey>,
        typ: TypeKey,
        variadic: bool,
        is_ctor: bool,
    ) -> (r: FunctionKey)
        requires
            old(self).wf(),
        ensures
            final(self).wf(),
            objects_extends(old(self)@, final(self)@),
            (final(self)@, r) =~= old(self)@.new_function(package, typ, variadic, is_ctor),
            r == old(self)@.functions.len(),
    {
        let k: usize = self.functions.len();
        self.functions.push(Function::new(package, typ, variadic, is_ctor));
        proof {
            let a = old(self)@;
            let b = a.new_function(package, typ, variadic, is_ctor).0;
            assert(self@ =~= b);
            assert forall|j: int| 0 <= j < b.functions.len() implies function_wf(
                #[trigger] b.functions[j],
            ) by {
                if j < a.functions.len() {
                    assert(b.functions[j] == a.functions[j]);
                }
            }
            assert forall|j: int| 0 <= j < a.functions.len() implies function_extends(
                a.functions[j],
                #[trigger] b.functions[j],
            ) by {
                assert(b.functions[j] == a.functions[j]);
            }
        }
        k
    }

    /// Adds a package without members.
    pub fn new_package(&mut self, name: String) -> (r: PackageKey)
        requires
            old(self).wf(),
        ensures
            final(self).wf(),
            objects_extends(old(self)@, final(self)@),
            (final(self)@, r) =~= old(self)@.new_package(name@),
            r == old(self)@.packages.len(),
    {
        let k: usize = self.packages.len();
        self.packages.push(Package::new(name));
        proof {
            let a = old(self)@;
            let b = a.new_package(name@).0;
            assert(self@ =~= b);
            assert forall|j: int| 0 <= j < b.packages.len() implies package_wf(
                #[trigger] b.packages[j],
            ) by {
                if j < a.packages.len() {
                    assert(b.packages[j] == a.packages[j]);
                }
            }
            assert forall|j: int| 0 <= j < a.packages.len() implies package_extends(
                a.packages[j],
                #[trigger] b.packages[j],
            ) by {
                assert(b.packages[j] == a.packages[j]);
            }
        }
        k
    }

    /// Adds a member to a struct type under a name. Returns `false`, with
    /// nothing changed, where the type is no struct or the struct is full.
    pub fn add_struct_member(&mut self, t: TypeKey, name: String, val: Value) -> (done: bool)
        requires
            old(self).wf(),
            5 <= t < old(self)@.types.len(),
        ensures
            final(self).wf(),
            objects_extends(old(self)@, final(self)@),
            match old(self)@.add_struct_member(t, name@, val) {
                Some(o) => done && final(self)@ =~= o,
                None => !done && final(self)@ == old(self)@,
            },
    {
        let typ = &mut self.types[t];
        let done = match &mut typ.data {
            TypeData::Struct(members, names) => {
                if members.len() >= 32767 {
                    false
                } else {
                    let index: i16 = members.len() as i16;
                    members.push(val);
                    names.push((name, index));
                    true
                }
            },
            _ => false,
        };
        proof {
            let a = old(self)@;
            if done {
                let names0 = old(self).types[t as int].data->Struct_1@;
                let names1 = self.types[t as int].data->Struct_1@;
                let index = old(self).types[t as int].data->Struct_0@.len() as i16;
                assert(names_view(names1) =~= names_view(names0).push((name@, index)));
                assert(self@ =~= a.add_struct_member(t, name@, val)->Some_0);
            } else {
                assert(self@ =~= a);
            }
            lemma_core_unchanged(a, self@);
        }
        done
    }
}

} // verus!

//! The artifact of generation.

use vstd::prelude::*;
use crate::func::jumps_closed;
use crate::model::{function_members_ok, package_complete};
use crate::objects::{names_view, Objects, objects_wf, ObjectsView};
use crate::value::{FunctionKey, PackageKey};

verus! {

/// What the machine runs: the object tables, the index of each package by
/// its name, the packages in order, and the entry function.
pub struct ByteCode {
    pub objects: Objects,
    pub package_indices: Vec<(String, i16)>,
    pub packages: Vec<PackageKey>,
    pub entry: FunctionKey,
}

/// A `ByteCode` as mathematical values.
pub struct ByteCodeView {
    pub objs: ObjectsView,
    pub package_indices: Seq<(Seq<char>, i16)>,
    pub package_keys: Seq<PackageKey>,
    pub entry: FunctionKey,
}

impl View for ByteCode {
    type V = ByteCodeView;

    open spec fn view(&self) -> ByteCodeView {
        ByteCodeView {
            objs: self.objects@,
            package_indices: names_view(self.package_indices@),
            package_keys: self.packages@,
            entry: self.entry,
        }
    }
}

/// The artifact is in order: the entry function is there; every jump of
/// every function aims at an opcode of the function; every load and store
/// names a local, an upvalue or a constant that the function has, or a
/// member that its package has; and every package is there and complete.
pub open spec fn byte_code_wf(b: ByteCodeView) -> bool {
    &&& objects_wf(b.objs)
    &&& b.entry < b.objs.functions.len()
    &&& forall|k: int|
        0 <= k < b.objs.functions.len() ==> jumps_closed((#[trigger] b.objs.functions[k]).code)
    &&& forall|k: int|
        0 <= k < b.objs.functions.len() ==> function_members_ok(
            b.objs,
            #[trigger] b.objs.functions[k],
        )
    &&& forall|i: int|
        0 <= i < b.package_keys.len() ==> (#[trigger] b.package_keys[i]) < b.objs.packages.len()
            && package_complete(b.objs, b.package_keys, i)
}

impl ByteCode {
    /// Whether the artifact is in order.
    pub open spec fn wf(&self) -> bool {
        byte_code_wf(self@)
    }
}

} // verus!

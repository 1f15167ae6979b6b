//! The record of one function: its entry point, its resource counters,
//! its variable directory, and its declared parameter types.

use vstd::prelude::*;
use vstd::string::*;
use crate::lang::{Kind, Type};
use crate::resources::Resources;
use crate::text::str_eq;
use crate::var_info::VarInfo;
use crate::virtual_memory::data_address;

verus! {

/// No two entries of a variable directory share a name.
pub open spec fn var_names_unique(vars: Seq<VarInfo>) -> bool {
    forall|i: int, j: int| 0 <= i < j < vars.len() ==> vars[i].name@ != vars[j].name@
}

/// The resource counters after counting one more cell of the given type
/// and kind; unaffected for combinations no counter tracks.
pub open spec fn spec_bump(r: Resources, var_type: Type, kind: Kind) -> Resources {
    match (var_type, kind) {
        (Type::Int, Kind::Regular) => Resources { int_count: (r.int_count + 1) as u32, ..r },
        (Type::Float, Kind::Regular) => Resources { float_count: (r.float_count + 1) as u32, ..r },
        (Type::Int, Kind::Temporal) => Resources { temp_i_count: (r.temp_i_count + 1) as u32, ..r },
        (Type::Float, Kind::Temporal) => Resources {
            temp_f_count: (r.temp_f_count + 1) as u32,
            ..r
        },
        _ => r,
    }
}

/// A function record. The entry point `location` is a 1-based quadruple
/// index, patched when the body's first quadruple is known.
#[derive(Clone, Debug)]
pub struct FunctionInfo {
    pub name: String,
    pub location: u32,
    pub resources: Resources,
    pub vars: Vec<VarInfo>,
    pub params: Vec<Type>,
}

impl FunctionInfo {
    /// Whether the directory holds a variable of this name.
    pub open spec fn spec_contains_key(self, key: Seq<char>) -> bool {
        exists|i: int| 0 <= i < self.vars@.len() && self.vars@[i].name@ == key
    }

    /// Variable names are unique and every variable's address lies in a
    /// declared segment.
    pub open spec fn wf(self) -> bool {
        &&& var_names_unique(self.vars@)
        &&& forall|i: int|
            0 <= i < self.vars@.len() ==> data_address(#[trigger] self.vars@[i].location as int)
    }

    /// The counter that drives allocation for this type and kind; `9999`
    /// for combinations no counter tracks.
    pub open spec fn spec_counter(self, var_type: Type, kind: Kind) -> u32 {
        match (var_type, kind) {
            (Type::Int, Kind::Regular) => self.resources.int_count,
            (Type::Float, Kind::Regular) => self.resources.float_count,
            (Type::Int, Kind::Temporal) => self.resources.temp_i_count,
            (Type::Float, Kind::Temporal) => self.resources.temp_f_count,
            _ => 9999,
        }
    }

    /// A fresh record with no variables, no parameters and zeroed counters.
    pub fn new(name: String, location: u32) -> (r: FunctionInfo)
        ensures
            r.name == name,
            r.location == location,
            r.vars@.len() == 0,
            r.params@.len() == 0,
            r.resources.int_count == 0,
            r.resources.float_count == 0,
            r.resources.temp_i_count == 0,
            r.resources.temp_f_count == 0,
            r.wf(),
    {
        FunctionInfo {
            name,
            location,
            resources: Resources::new(),
            vars: Vec::new(),
            params: Vec::new(),
        }
    }

    /// Whether a variable of this name is declared here.
    pub fn contains_key(&self, key: &str) -> (r: bool)
        ensures
            r == self.spec_contains_key(key@),
    {
        let mut i: usize = 0;
        while i < self.vars.len()
            invariant
                i <= self.vars@.len(),
                forall|j: int| 0 <= j < i ==> self.vars@[j].name@ != key@,
            decreases self.vars@.len() - i,
        {
            if str_eq(self.vars[i].name.as_str(), key) {
                return true;
            }
            i += 1;
        }
        false
    }

    /// The variable of this name, if declared here.
    pub fn get(&self, key: &str) -> (r: Option<&VarInfo>)
        ensures
            match r {
                Some(v) => {
                    &&& self.spec_contains_key(key@)
                    &&& v.name@ == key@
                    &&& exists|i: int| 0 <= i < self.vars@.len() && self.vars@[i] == *v
                },
                None => !self.spec_contains_key(key@),
            },
    {
        let mut i: usize = 0;
        while i < self.vars.len()
            invariant
                i <= self.vars@.len(),
                forall|j: int| 0 <= j < i ==> self.vars@[j].name@ != key@,
            decreases self.vars@.len() - i,
        {
            if str_eq(self.vars[i].name.as_str(), key) {
                return Some(&self.vars[i]);
            }
            i += 1;
        }
        None
    }

    /// Reads the allocation counter for a type and kind.
    pub fn get_counter(&self, var_type: Type, kind: Kind) -> (r: u32)
        ensures
            r == self.spec_counter(var_type, kind),
    {
        match (var_type, kind) {
            (Type::Int, Kind::Regular) => self.resources.int_count,
            (Type::Float, Kind::Regular) => self.resources.float_count,
            (Type::Int, Kind::Temporal) => self.resources.temp_i_count,
            (Type::Float, Kind::Temporal) => self.resources.temp_f_count,
            _ => 9999,
        }
    }

    /// Counts one more cell of the given type and kind.
    pub fn add_to_counter(&mut self, var_type: Type, kind: Kind)
        requires
            old(self).spec_counter(var_type, kind) < u32::MAX,
        ensures
            final(self).resources == spec_bump(old(self).resources, var_type, kind),
            final(self).name == old(self).name,
            final(self).location == old(self).location,
            final(self).vars == old(self).vars,
            final(self).params == old(self).params,
    {
        match (var_type, kind) {
            (Type::Int, Kind::Regular) => {
                self.resources.int_count = self.resources.int_count + 1;
            },
            (Type::Float, Kind::Regular) => {
                self.resources.float_count = self.resources.float_count + 1;
            },
            (Type::Int, Kind::Temporal) => {
                self.resources.temp_i_count = self.resources.temp_i_count + 1;
            },
            (Type::Float, Kind::Temporal) => {
                self.resources.temp_f_count = self.resources.temp_f_count + 1;
            },
            _ => {},
        }
    }

    /// Declares a variable here. The caller has checked that the name is
    /// free and that the address lies in a declared segment.
    pub fn insert(&mut self, key: String, var_type: Type, memory: u32)
        requires
            !old(self).spec_contains_key(key@),
            data_address(memory as int),
        ensures
            final(self).vars@ == old(self).vars@.push(
                VarInfo { name: key, var_type, location: memory },
            ),
            final(self).name == old(self).name,
            final(self).location == old(self).location,
            final(self).resources == old(self).resources,
            final(self).params == old(self).params,
            old(self).wf() ==> final(self).wf(),
            final(self).spec_contains_key(key@),
    {
        let ghost pre = *self;
        self.vars.push(VarInfo::new(key, var_type, memory));
        proof {
            assert(final(self).vars@.last().name@ == key@);
            if pre.wf() {
                assert forall|i: int, j: int|
                    0 <= i < j < self.vars@.len() implies self.vars@[i].name@
                    != self.vars@[j].name@ by {
                    if j < self.vars@.len() - 1 {
                        assert(pre.vars@[i].name@ != pre.vars@[j].name@);
                    } else {
                        assert(self.vars@[i] == pre.vars@[i]);
                        if self.vars@[i].name@ == key@ {
                            assert(pre.spec_contains_key(key@));
                        }
                    }
                }
            }
        }
    }

    /// Appends one declared parameter type.
    pub fn add_param(&mut self, param: Type)
        ensures
            final(self).params@ == old(self).params@.push(param),
            final(self).name == old(self).name,
            final(self).location == old(self).location,
            final(self).resources == old(self).resources,
            final(self).vars == old(self).vars,
    {
        self.params.push(param);
    }
}

} // verus!

//! Plain descriptions of a module's exports and imports, as handed to
//! embedders: kinds, descriptor lists, result codes and limits.

#![allow(non_camel_case_types)]

use vstd::prelude::*;

verus! {

/// Opaque handle to an export.
#[derive(Clone, Copy)]
pub struct wasmer_export_t;

/// Opaque handle to an exported function.
#[derive(Clone, Copy)]
pub struct wasmer_export_func_t;

/// Opaque handle to a list of exports.
#[derive(Clone, Copy)]
pub struct wasmer_exports_t;

/// Opaque handle to an export descriptor.
#[derive(Clone, Copy)]
pub struct wasmer_export_descriptor_t;

/// Opaque handle to a list of export descriptors.
#[derive(Clone, Copy)]
pub struct wasmer_export_descriptors_t;

/// What an export or import is. Encoded as 0 to 3, in declaration order.
#[derive(Clone, Copy, Debug, PartialEq, Eq, Structural)]
pub enum wasmer_import_export_kind {
    /// A function.
    WASM_FUNCTION,
    /// A global.
    WASM_GLOBAL,
    /// A memory.
    WASM_MEMORY,
    /// A table.
    WASM_TABLE,
}

/// Success or failure of an embedder call.
#[derive(Clone, Copy, Debug, PartialEq, Eq, Structural)]
pub enum wasmer_result_t {
    WASMER_OK,
    WASMER_ERROR,
}

/// An optional upper limit.
#[derive(Clone, Copy, Debug, PartialEq, Eq, Structural)]
pub struct wasmer_limit_option_t {
    /// Whether the limit is set.
    pub has_some: bool,
    /// The limit, where set.
    pub some: u32,
}

/// Limits of a memory or a table, in pages or elements.
#[derive(Clone, Copy, Debug, PartialEq, Eq, Structural)]
pub struct wasmer_limits_t {
    pub min: u32,
    pub max: wasmer_limit_option_t,
}

/// The name of each kind.
pub open spec fn kind_name(k: wasmer_import_export_kind) -> Seq<char> {
    match k {
        wasmer_import_export_kind::WASM_FUNCTION => seq!['f', 'u', 'n', 'c', 't', 'i', 'o', 'n'],
        wasmer_import_export_kind::WASM_GLOBAL => seq!['g', 'l', 'o', 'b', 'a', 'l'],
        wasmer_import_export_kind::WASM_MEMORY => seq!['m', 'e', 'm', 'o', 'r', 'y'],
        wasmer_import_export_kind::WASM_TABLE => seq!['t', 'a', 'b', 'l', 'e'],
    }
}

/// The encoding of each kind.
pub open spec fn kind_code(k: wasmer_import_export_kind) -> u32 {
    match k {
        wasmer_import_export_kind::WASM_FUNCTION => 0,
        wasmer_import_export_kind::WASM_GLOBAL => 1,
        wasmer_import_export_kind::WASM_MEMORY => 2,
        wasmer_import_export_kind::WASM_TABLE => 3,
    }
}

impl wasmer_import_export_kind {
    pub fn to_str(&self) -> (r: &'static str)
        ensures
            r@ == kind_name(*self),
    {
        match self {
            wasmer_import_export_kind::WASM_FUNCTION => {
                proof {
                    reveal_strlit("function");
                }
                assert("function"@ =~= kind_name(*self));
                "function"
            },
            wasmer_import_export_kind::WASM_GLOBAL => {
                proof {
                    reveal_strlit("global");
                }
                assert("global"@ =~= kind_name(*self));
                "global"
            },
            wasmer_import_export_kind::WASM_MEMORY => {
                proof {
                    reveal_strlit("memory");
                }
                assert("memory"@ =~= kind_name(*self));
                "memory"
            },
            wasmer_import_export_kind::WASM_TABLE => {
                proof {
                    reveal_strlit("table");
                }
                assert("table"@ =~= kind_name(*self));
                "table"
            },
        }
    }

    /// Decodes a kind; values other than 0 to 3 are refused.
    pub fn try_from(value: u32) -> (r: Result<wasmer_import_export_kind, ()>)
        ensures
            r is Ok <==> value < 4,
            r matches Ok(k) ==> kind_code(k) == value,
    {
        match value {
            0 => Ok(wasmer_import_export_kind::WASM_FUNCTION),
            1 => Ok(wasmer_import_export_kind::WASM_GLOBAL),
            2 => Ok(wasmer_import_export_kind::WASM_MEMORY),
            3 => Ok(wasmer_import_export_kind::WASM_TABLE),
            _ => Err(()),
        }
    }
}

/// The name and kind of one export.
pub struct NamedExportDescriptor {
    name: String,
    kind: wasmer_import_export_kind,
}

impl NamedExportDescriptor {
    pub closed spec fn spec_name(&self) -> Seq<char> {
        self.name@
    }

    pub closed spec fn spec_kind(&self) -> wasmer_import_export_kind {
        self.kind
    }

    pub fn new(name: String, kind: wasmer_import_export_kind) -> (r: NamedExportDescriptor)
        ensures
            r.spec_name() == name@,
            r.spec_kind() == kind,
    {
        NamedExportDescriptor { name, kind }
    }

    pub fn name(&self) -> (r: &str)
        ensures
            r@ == self.spec_name(),
    {
        self.name.as_str()
    }

    pub fn kind(&self) -> (r: wasmer_import_export_kind)
        ensures
            r == self.spec_kind(),
    {
        self.kind
    }
}

/// The export descriptors of a module, in the module's order.
pub struct NamedExportDescriptors(Vec<NamedExportDescriptor>);

impl NamedExportDescriptors {
    pub closed spec fn view(&self) -> Seq<NamedExportDescriptor> {
        self.0@
    }

    pub fn new(items: Vec<NamedExportDescriptor>) -> (r: NamedExportDescriptors)
        ensures
            r@ == items@,
    {
        NamedExportDescriptors(items)
    }

    pub fn len(&self) -> (r: usize)
        ensures
            r == self@.len(),
    {
        self.0.len()
    }

    /// The descriptor at `idx`; `None` past the end.
    pub fn get(&self, idx: usize) -> (r: Option<&NamedExportDescriptor>)
        ensures
            r is Some <==> idx < self@.len(),
            r matches Some(d) ==> *d == self@[idx as int],
    {
        if idx < self.0.len() {
            Some(&self.0[idx])
        } else {
            None
        }
    }
}

} // verus!

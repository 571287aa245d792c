//! The ten node kinds' staging data records and resolved records.
//!
//! A staging record is what a caller hands to `add_K`; a resolved record
//! is what the hydration engine stores once every name-valued field has
//! been turned into a handle (an index into the session's slot table).
//! What a record carries beyond its name is an external contract with
//! the descriptor parser; the engine itself only needs the name-valued
//! fields and the kind each one targets.

use vstd::prelude::*;

verus! {

/// The staging record of a package declaration.
pub struct PackageData {}

/// The staging record of a file declaration.
pub struct FileData {}

/// The staging record of a message declaration.
pub struct MessageData {}

/// The staging record of an enum declaration.
pub struct EnumData {}

/// The staging record of an enum-value declaration.
pub struct EnumValueData {}

/// The staging record of a service declaration.
pub struct ServiceData {}

/// The staging record of a field declaration.
pub struct FieldData {}

/// The staging record of a oneof declaration.
pub struct OneofData {}

/// The staging record of an extension declaration.
pub struct ExtensionData {}

/// The staging record of a method declaration: the names of its input
/// and output message types and of the file it is declared in.
pub struct MethodData {
    pub input: String,
    pub output: String,
    pub file: String,
    pub name: String,
    pub deprecated: bool,
}

/// The mathematical content of a [`MethodData`].
pub struct MethodDataView {
    pub input: Seq<char>,
    pub output: Seq<char>,
    pub file: Seq<char>,
    pub name: Seq<char>,
    pub deprecated: bool,
}

impl MethodData {
    /// Populates the claimed method slot `idx`: resolves the input and
    /// output message names and the file name into handles (creating
    /// placeholder slots for names not yet declared) and writes the
    /// resolved method node.  The model is
    /// [`crate::ast::spec_populate_method`].
    pub fn populate_into(&self, ast: &mut crate::ast::AstHydration, idx: usize) -> (r: Result<
        (),
        crate::ast::Error,
    >)
        requires
            old(ast).wf(),
            idx < old(ast)@.len(),
            old(ast)@[idx as int].kind == crate::node::Kind::Method,
            old(ast)@[idx as int].node is None,
        ensures
            final(ast).wf(),
            ({
                let (s2, rr) = crate::ast::spec_populate_method(old(ast)@, idx as int, self@);
                final(ast)@ == s2 && r == rr
            }),
    {
        let ghost s0 = old(ast)@;
        proof {
            crate::ast::lemma_resolve_ok(s0, self@.input, crate::node::Kind::Message);
        }
        let input = match ast.placeholder_message(self.input.as_str()) {
            Result::Ok(h) => h,
            Result::Err(e) => {
                return Result::Err(e);
            },
        };
        let ghost s1 = ast@;
        proof {
            crate::ast::lemma_resolve_ok(s1, self@.output, crate::node::Kind::Message);
        }
        let output = match ast.placeholder_message(self.output.as_str()) {
            Result::Ok(h) => h,
            Result::Err(e) => {
                return Result::Err(e);
            },
        };
        let ghost s2 = ast@;
        proof {
            crate::ast::lemma_resolve_ok(s2, self@.file, crate::node::Kind::File);
        }
        let file = match ast.placeholder_file(self.file.as_str()) {
            Result::Ok(h) => h,
            Result::Err(e) => {
                return Result::Err(e);
            },
        };
        let node = Method {
            input,
            output,
            file,
            name: self.name.clone(),
            deprecated: self.deprecated,
        };
        ast.finish_slot(idx, crate::ast::Node::Method(node));
        Result::Ok(())
    }
}

impl View for MethodData {
    type V = MethodDataView;

    open spec fn view(&self) -> MethodDataView {
        MethodDataView {
            input: self.input@,
            output: self.output@,
            file: self.file@,
            name: self.name@,
            deprecated: self.deprecated,
        }
    }
}

/// A resolved package.
pub struct Package {
    pub name: String,
}

/// A resolved file.
pub struct File {
    pub name: String,
}

/// A resolved message.
pub struct Message {
    pub name: String,
}

/// A resolved enum.
pub struct Enum {
    pub name: String,
}

/// A resolved enum value.
pub struct EnumValue {
    pub name: String,
}

/// A resolved service.
pub struct Service {
    pub name: String,
}

/// A resolved method: its input and output messages and its file are
/// handles to other resolved records.
pub struct Method {
    pub input: usize,
    pub output: usize,
    pub file: usize,
    pub name: String,
    pub deprecated: bool,
}

/// A resolved field.
pub struct Field {
    pub name: String,
}

/// A resolved oneof.
pub struct Oneof {
    pub name: String,
}

/// A resolved extension.
pub struct Extension {
    pub name: String,
}

} // verus!

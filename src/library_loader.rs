//! Naming and parameters of the dynamic-linker namespaces that isolate hosted services.
use vstd::prelude::*;

use crate::text::{append_decimal, contains_nul, decimal, has_nul};

verus! {

/// The search path handed to the linker: the directories joined by ':'.
pub open spec fn joined_paths(paths: Seq<String>) -> Seq<char>
    decreases paths.len(),
{
    if paths.len() == 0 {
        Seq::empty()
    } else if paths.len() == 1 {
        paths[0]@
    } else {
        joined_paths(paths.drop_last()) + seq![':'] + paths.last()@
    }
}

/// The name of the namespace created with serial number `serial`.
pub open spec fn namespace_name(base: Seq<char>, serial: nat) -> Seq<char> {
    base + seq!['-'] + decimal(serial)
}

/// Whether one of the library search directories holds a NUL character.
pub open spec fn some_path_has_nul(paths: Seq<String>) -> bool {
    exists|i: int| 0 <= i < paths.len() && has_nul(#[trigger] paths[i]@)
}

/// The error that preparing a namespace meets, checked in this order; `None` when it succeeds.
pub open spec fn namespace_error(
    base: Seq<char>,
    serial: nat,
    paths: Seq<String>,
    permitted_libs_dir: Seq<char>,
) -> Option<LoaderError> {
    if has_nul(base) {
        Some(LoaderError::InvalidNamespaceName)
    } else if some_path_has_nul(paths) {
        Some(LoaderError::InvalidLibraryPaths)
    } else if has_nul(permitted_libs_dir) {
        Some(LoaderError::InvalidPermittedLibsDir)
    } else if serial >= u32::MAX {
        Some(LoaderError::TooManyNamespaces)
    } else {
        None
    }
}

/// Why a namespace could not be prepared.
#[derive(Debug, Clone, Copy, PartialEq, Eq, Structural)]
pub enum LoaderError {
    /// The namespace name holds a NUL character.
    InvalidNamespaceName,
    /// One of the library search directories holds a NUL character.
    InvalidLibraryPaths,
    /// The permitted-libraries directory holds a NUL character.
    InvalidPermittedLibsDir,
    /// Every serial number has been handed out.
    TooManyNamespaces,
}

/// An isolated linker namespace, as the dynamic linker is asked to create it: a process-unique
/// name, the ordered library search path and the directory outside of it that may be loaded from.
pub struct LinkerNamespace {
    pub name: String,
    pub library_path: String,
    pub permitted_libs_dir: String,
}

/// Creates linker namespaces, giving each a name made unique by a serial number.
pub struct NamespaceFactory {
    base_name: String,
    serial: u32,
}

impl NamespaceFactory {
    pub closed spec fn spec_base_name(&self) -> Seq<char> {
        self.base_name@
    }

    /// The serial number that the next namespace gets.
    pub closed spec fn spec_serial(&self) -> nat {
        self.serial as nat
    }

    pub fn new(base_name: String) -> (r: Self)
        ensures
            r.spec_base_name() == base_name@,
            r.spec_serial() == 0,
    {
        NamespaceFactory { base_name, serial: 0 }
    }

    pub fn serial(&self) -> (r: u32)
        ensures
            r as nat == self.spec_serial(),
    {
        self.serial
    }

    /// Prepares the next namespace. A failure leaves the factory as it was; a success uses up
    /// one serial number, so that no two namespaces of this factory share a name.
    pub fn create_linker_namespace(&mut self, library_paths: &Vec<String>, permitted_libs_dir: &str)
        -> (r: Result<LinkerNamespace, LoaderError>)
        ensures
            final(self).spec_base_name() == old(self).spec_base_name(),
            r matches Err(e) ==> namespace_error(
                old(self).spec_base_name(),
                old(self).spec_serial(),
                library_paths@,
                permitted_libs_dir@,
            ) == Some(e) && final(self).spec_serial() == old(self).spec_serial(),
            r is Ok ==> namespace_error(
                old(self).spec_base_name(),
                old(self).spec_serial(),
                library_paths@,
                permitted_libs_dir@,
            ) is None,
            r matches Ok(ns) ==> {
                &&& ns.name@ == namespace_name(old(self).spec_base_name(), old(self).spec_serial())
                &&& ns.library_path@ == joined_paths(library_paths@)
                &&& ns.permitted_libs_dir@ == permitted_libs_dir@
                &&& final(self).spec_serial() == old(self).spec_serial() + 1
            },
    {
        if contains_nul(self.base_name.as_str()) {
            return Err(LoaderError::InvalidNamespaceName);
        }
        let mut library_path = String::new();
        let mut i: usize = 0;
        while i < library_paths.len()
            invariant
                i <= library_paths@.len(),
                !has_nul(self.base_name@),
                library_path@ == joined_paths(library_paths@.take(i as int)),
                forall|j: int| 0 <= j < i ==> !has_nul(#[trigger] library_paths@[j]@),
            decreases library_paths@.len() - i,
        {
            let dir = &library_paths[i];
            if contains_nul(dir.as_str()) {
                return Err(LoaderError::InvalidLibraryPaths);
            }
            proof {
                reveal_strlit(":");
                assert(library_paths@.take(i + 1).drop_last() =~= library_paths@.take(i as int));
            }
            if i > 0 {
                library_path.append(":");
            }
            library_path.append(dir.as_str());
            proof {
                if i == 0 {
                    assert(library_path@ =~= joined_paths(library_paths@.take(1)));
                }
            }
            i = i + 1;
        }
        assert(library_paths@.take(i as int) =~= library_paths@);
        if contains_nul(permitted_libs_dir) {
            return Err(LoaderError::InvalidPermittedLibsDir);
        }
        if self.serial == u32::MAX {
            return Err(LoaderError::TooManyNamespaces);
        }
        let mut name = self.base_name.clone();
        proof {
            reveal_strlit("-");
        }
        name.append("-");
        append_decimal(&mut name, self.serial as u64);
        self.serial = self.serial + 1;
        Ok(LinkerNamespace {
            name,
            library_path,
            permitted_libs_dir: String::from_str(permitted_libs_dir),
        })
    }
}

} // verus!

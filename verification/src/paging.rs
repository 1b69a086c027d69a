//! Provides the abilities associated with paging.

use vstd::prelude::*;

verus! {

/// Represents an access right to a page.
#[derive(Debug, Clone, Copy, PartialEq, Eq, Structural, Hash)]
pub enum AccessRight {
    /// A page is not accessible.
    NoAccess,
    /// A page is readable.
    Read,
    /// A page is readable and writable.
    ReadWrite,
    /// A page is executable.
    Execute,
    /// A page is readable and executable.
    ReadExecute,
    /// A page is readable, writable and executable.
    ReadWriteExecute,
}

impl Default for AccessRight {
    fn default() -> (r: Self)
        ensures
            r == AccessRight::NoAccess,
    {
        AccessRight::NoAccess
    }
}

/// Represents a visibility scope of a page.
#[derive(Debug, Clone, Copy, PartialEq, Eq, Structural, Hash)]
pub enum MappingScope {
    /// A page is accessible only from kernel space but a translation is global.
    GlobalKernel,
    /// A page is accessible only from kernel space and a translation is local.
    LocalKernel,
    /// A page is accessible from user space.
    User,
}

impl Default for MappingScope {
    fn default() -> (r: Self)
        ensures
            r == MappingScope::User,
    {
        MappingScope::User
    }
}

/// Represents a page-level cache policy.
#[derive(Debug, Clone, Copy, PartialEq, Eq, Structural, Hash)]
pub enum CachePolicy {
    /// A normal cache policy.
    Normal,
}

impl Default for CachePolicy {
    fn default() -> (r: Self)
        ensures
            r == CachePolicy::Normal,
    {
        CachePolicy::Normal
    }
}

/// Represents an attribute of a page.
pub struct PageAttributes {
    /// An access right.
    pub right: AccessRight,
    /// A scope.
    pub scope: MappingScope,
    /// A cache policy.
    pub cache: CachePolicy,
}

impl PageAttributes {
    /// Creates a new page attribute for kernel data.
    pub fn kernel_data() -> (r: Self)
        ensures
            r.right == AccessRight::ReadWrite,
            r.scope == MappingScope::GlobalKernel,
            r.cache == CachePolicy::Normal,
    {
        Self {
            right: AccessRight::ReadWrite,
            scope: MappingScope::GlobalKernel,
            cache: CachePolicy::Normal,
        }
    }

    /// Creates a new page attribute for kernel code.
    pub fn kernel_code() -> (r: Self)
        ensures
            r.right == AccessRight::ReadExecute,
            r.scope == MappingScope::GlobalKernel,
            r.cache == CachePolicy::Normal,
    {
        Self {
            right: AccessRight::ReadExecute,
            scope: MappingScope::GlobalKernel,
            cache: CachePolicy::Normal,
        }
    }
}

} // verus!

use vstd::prelude::*;

use crate::descriptor::parsed;
use crate::store::{count_named, find_by_name, names, texts_view, LookupError};

verus! {

/// What an uninstall removes: the descriptor file at `descriptor_index` in the directory
/// listing, the package file, and the icon if the descriptor names one.
#[derive(Clone, Debug)]
pub struct UninstallPlan {
    pub descriptor_index: usize,
    pub binary_path: String,
    pub icon_path: Option<String>,
}

/// The outcome of removing one file.
#[derive(Clone, Debug)]
pub enum Removal {
    Removed,
    /// There was no such file.
    Absent,
    Failed(String),
}

#[derive(Clone, Debug)]
pub enum UninstallError {
    /// No single descriptor carries the name.
    Lookup(LookupError),
    /// The package file could not be removed.
    BinaryRemoval(String),
    /// The descriptor file could not be removed.
    DescriptorRemoval(String),
    /// The package file or the descriptor file was not there to remove.
    NotRemoved,
}

/// The files to remove for the package named `name`, from the texts of the directory's
/// descriptor files. Without exactly one descriptor of that name nothing is to be removed.
pub fn plan_uninstall(files: &Vec<String>, name: &str) -> (r: Result<UninstallPlan, UninstallError>)
    ensures
        count_named(texts_view(files@), name@) == 0 <==> r matches Err(
            UninstallError::Lookup(LookupError::NotFound),
        ),
        count_named(texts_view(files@), name@) > 1 <==> r matches Err(
            UninstallError::Lookup(LookupError::Ambiguous),
        ),
        count_named(texts_view(files@), name@) == 1 <==> r is Ok,
        r matches Ok(p) ==> {
            &&& p.descriptor_index < files@.len()
            &&& names(files@[p.descriptor_index as int]@, name@)
            &&& forall|j: int|
                0 <= j < files@.len() && j != p.descriptor_index ==> !names(#[trigger] files@[j]@, name@)
            &&& parsed(files@[p.descriptor_index as int]@, false) matches Ok(d) && p.binary_path@ == d.exec_path
                && match p.icon_path {
                Some(i) => d.icon == Some(i@),
                None => d.icon is None,
            }
        },
{
    match find_by_name(files, name) {
        Ok((i, d)) => Ok(UninstallPlan { descriptor_index: i, binary_path: d.exec_path, icon_path: d.icon }),
        Err(e) => Err(UninstallError::Lookup(e)),
    }
}

/// The result of an uninstall from the outcomes of its two removals that count: it
/// succeeds only if both the package file and the descriptor file were removed. The icon's
/// removal does not enter.
pub fn uninstall_result(binary: Removal, descriptor: Removal) -> (r: Result<bool, UninstallError>)
    ensures
        (r matches Ok(b) && b) <==> (binary is Removed && descriptor is Removed),
        r is Ok ==> r == Ok::<bool, UninstallError>(true),
        binary matches Removal::Failed(m) ==> r matches Err(UninstallError::BinaryRemoval(n)) && n@ == m@,
        !(binary is Failed) ==> (descriptor matches Removal::Failed(m) ==> r matches Err(
            UninstallError::DescriptorRemoval(n),
        ) && n@ == m@),
        !(binary is Failed) && !(descriptor is Failed) && !(binary is Removed && descriptor is Removed)
            ==> r matches Err(UninstallError::NotRemoved),
{
    match (binary, descriptor) {
        (Removal::Failed(m), _) => Err(UninstallError::BinaryRemoval(m)),
        (_, Removal::Failed(m)) => Err(UninstallError::DescriptorRemoval(m)),
        (Removal::Removed, Removal::Removed) => Ok(true),
        _ => Err(UninstallError::NotRemoved),
    }
}

} // verus!

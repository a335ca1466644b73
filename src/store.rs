use vstd::prelude::*;
use vstd::string::StringExecFns;

use crate::descriptor::{parsed, DescriptorModel, LauncherDescriptor, ParseError};
use crate::text::str_eq;

verus! {

/// Why a lookup in the registration directory found no single descriptor.
#[derive(Clone, Copy, Debug, PartialEq, Eq, Structural)]
pub enum LookupError {
    /// No descriptor carries the name.
    NotFound,
    /// More than one descriptor carries the name.
    Ambiguous,
}

/// Why a descriptor file may not be written.
#[derive(Clone, Copy, Debug, PartialEq, Eq, Structural)]
pub enum WriteError {
    /// A file of that name is already registered.
    AlreadyExists,
}

/// The descriptors that a directory's file texts list: each text that parses leniently,
/// in order; the others are skipped.
pub open spec fn listed(texts: Seq<Seq<char>>) -> Seq<DescriptorModel>
    decreases texts.len(),
{
    if texts.len() == 0 {
        seq![]
    } else {
        let before = listed(texts.drop_last());
        match parsed(texts.last(), false) {
            Ok(d) => before.push(d),
            Err(_) => before,
        }
    }
}

/// The file text reads, leniently, as a descriptor named `name`.
pub open spec fn names(text: Seq<char>, name: Seq<char>) -> bool {
    parsed(text, false) matches Ok(d) && d.name == name
}

/// How many of the texts read as a descriptor named `name`.
pub open spec fn count_named(texts: Seq<Seq<char>>, name: Seq<char>) -> nat
    decreases texts.len(),
{
    if texts.len() == 0 {
        0
    } else {
        count_named(texts.drop_last(), name) + if names(texts.last(), name) {
            1nat
        } else {
            0nat
        }
    }
}

pub open spec fn texts_view(files: Seq<String>) -> Seq<Seq<char>> {
    files.map_values(|f: String| f@)
}

pub open spec fn descriptors_view(ds: Seq<LauncherDescriptor>) -> Seq<DescriptorModel> {
    ds.map_values(|d: LauncherDescriptor| d@)
}

proof fn lemma_count_zero_none(texts: Seq<Seq<char>>, name: Seq<char>, i: int)
    requires
        0 <= i < texts.len(),
        names(texts[i], name),
    ensures
        count_named(texts, name) >= 1,
        count_named(texts, name) == 1 ==> forall|j: int|
            0 <= j < texts.len() && j != i ==> !names(#[trigger] texts[j], name),
    decreases texts.len(),
{
    let init = texts.drop_last();
    if i < texts.len() - 1 {
        assert(init[i] == texts[i]);
        lemma_count_zero_none(init, name, i);
        assert forall|j: int| 0 <= j < texts.len() && j != i && count_named(texts, name) == 1 implies !names(
            #[trigger] texts[j],
            name,
        ) by {
            if j < texts.len() - 1 {
                assert(init[j] == texts[j]);
            }
        }
    } else {
        assert forall|j: int| 0 <= j < texts.len() && j != i && count_named(texts, name) == 1 implies !names(
            #[trigger] texts[j],
            name,
        ) by {
            assert(init[j] == texts[j]);
            if names(texts[j], name) {
                lemma_count_zero_none(init, name, j);
            }
        }
    }
}

/// Every descriptor in the directory, read leniently; a file that does not parse is skipped.
pub fn list_all(files: &Vec<String>) -> (r: Vec<LauncherDescriptor>)
    ensures
        descriptors_view(r@) == listed(texts_view(files@)),
{
    let mut out: Vec<LauncherDescriptor> = Vec::new();
    let mut i: usize = 0;
    while i < files.len()
        invariant
            i <= files@.len(),
            descriptors_view(out@) == listed(texts_view(files@).subrange(0, i as int)),
        decreases files@.len() - i,
    {
        let ghost pre = out@;
        let r = LauncherDescriptor::parse(files[i].as_str(), false);
        proof {
            let ts = texts_view(files@);
            assert(ts.subrange(0, i + 1).drop_last() =~= ts.subrange(0, i as int));
            assert(ts.subrange(0, i + 1).last() == files@[i as int]@);
        }
        match r {
            Ok(d) => {
                out.push(d);
                assert(descriptors_view(out@) =~= descriptors_view(pre).push(d@));
            },
            Err(_) => {},
        }
        i = i + 1;
    }
    assert(texts_view(files@).subrange(0, i as int) =~= texts_view(files@));
    out
}

/// The one descriptor named `name` (case-sensitive), with the index of its file.
/// None or several is an error.
pub fn find_by_name(files: &Vec<String>, name: &str) -> (r: Result<(usize, LauncherDescriptor), LookupError>)
    ensures
        count_named(texts_view(files@), name@) == 0 <==> r == Err::<(usize, LauncherDescriptor), LookupError>(
            LookupError::NotFound,
        ),
        count_named(texts_view(files@), name@) > 1 <==> r == Err::<(usize, LauncherDescriptor), LookupError>(
            LookupError::Ambiguous,
        ),
        r matches Ok((i, d)) ==> {
            &&& i < files@.len()
            &&& parsed(files@[i as int]@, false) == Ok::<DescriptorModel, ParseError>(d@)
            &&& d@.name == name@
            &&& forall|j: int| 0 <= j < files@.len() && j != i ==> !names(#[trigger] files@[j]@, name@)
        },
{
    let mut found: Option<(usize, LauncherDescriptor)> = None;
    let mut count: usize = 0;
    let mut i: usize = 0;
    while i < files.len()
        invariant
            i <= files@.len(),
            count == count_named(texts_view(files@).subrange(0, i as int), name@),
            count <= i,
            count == 0 <==> found is None,
            found matches Some((k, d)) ==> {
                &&& k < i
                &&& parsed(files@[k as int]@, false) == Ok::<DescriptorModel, ParseError>(d@)
                &&& d@.name == name@
            },
        decreases files@.len() - i,
    {
        let r = LauncherDescriptor::parse(files[i].as_str(), false);
        proof {
            let ts = texts_view(files@);
            assert(ts.subrange(0, i + 1).drop_last() =~= ts.subrange(0, i as int));
            assert(ts.subrange(0, i + 1).last() == files@[i as int]@);
        }
        match r {
            Ok(d) => {
                if str_eq(d.name.as_str(), name) {
                    if count == 0 {
                        found = Some((i, d));
                    }
                    count = count + 1;
                }
            },
            Err(_) => {},
        }
        i = i + 1;
    }
    assert(texts_view(files@).subrange(0, i as int) =~= texts_view(files@));
    if count > 1 {
        return Err(LookupError::Ambiguous);
    }
    match found {
        None => Err(LookupError::NotFound),
        Some((k, d)) => {
            proof {
                let ts = texts_view(files@);
                assert(ts[k as int] == files@[k as int]@);
                lemma_count_zero_none(ts, name@, k as int);
                assert forall|j: int| 0 <= j < files@.len() && j != k implies !names(
                    #[trigger] files@[j]@,
                    name@,
                ) by {
                    assert(ts[j] == files@[j]@);
                }
            }
            Ok((k, d))
        },
    }
}

/// The file name of a descriptor: its package name with the `.desktop` extension.
pub fn descriptor_file_name(name: &str) -> (r: String)
    ensures
        r@ == name@ + ".desktop"@,
{
    let mut r = String::from_str(name);
    r.append(".desktop");
    r
}

/// Whether a descriptor may be written under `target`, given the files already in the
/// directory: an existing file is replaced only when `overwrite` says so.
pub fn check_write(existing: &Vec<String>, target: &str, overwrite: bool) -> (r: Result<(), WriteError>)
    ensures
        (r is Err) <==> (!overwrite && exists|i: int| 0 <= i < existing@.len() && existing@[i]@ == target@),
{
    if overwrite {
        return Ok(());
    }
    let mut i: usize = 0;
    while i < existing.len()
        invariant
            i <= existing@.len(),
            !overwrite,
            forall|j: int| 0 <= j < i ==> existing@[j]@ != target@,
        decreases existing@.len() - i,
    {
        if str_eq(existing[i].as_str(), target) {
            assert(existing@[i as int]@ == target@);
            return Err(WriteError::AlreadyExists);
        }
        i = i + 1;
    }
    Ok(())
}

} // verus!

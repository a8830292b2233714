//! The bundle of patch files.

use crate::deploy::file_views;
use vstd::prelude::*;

verus! {

/// The files of a bundle, each a relative path and a content, in the
/// bundle's order. The bundle itself stays as it is.
pub fn get_all_files(bundle: &Vec<(String, String)>) -> (r: Vec<(String, String)>)
    ensures
        file_views(r@) == file_views(bundle@),
{
    let mut out: Vec<(String, String)> = Vec::new();
    let mut i: usize = 0;
    while i < bundle.len()
        invariant
            i <= bundle.len(),
            out@.len() == i,
            forall|j: int| 0 <= j < i ==> file_views(out@)[j] == file_views(bundle@)[j],
        decreases bundle.len() - i,
    {
        out.push((bundle[i].0.clone(), bundle[i].1.clone()));
        i += 1;
    }
    assert(file_views(out@) =~= file_views(bundle@));
    out
}

} // verus!

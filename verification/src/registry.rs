//! The one rule of the registry export: an image name must name a
//! repository. Building, pushing and pulling the snapshot image is
//! process orchestration and stays outside the library.

use vstd::prelude::*;

verus! {

/// Whether an image name names a repository: it holds a `/` separating
/// repository from image. Export and import refuse a bare name.
pub fn image_name_has_repository(name: &str) -> (r: bool)
    ensures
        r == exists|i: int| 0 <= i < name@.len() && name@[i] == '/',
{
    let n = name.unicode_len();
    let mut i: usize = 0;
    while i < n
        invariant
            n == name@.len(),
            0 <= i <= n,
            forall|l: int| 0 <= l < i ==> name@[l] != '/',
        decreases n - i,
    {
        if name.get_char(i) == '/' {
            return true;
        }
        i = i + 1;
    }
    false
}

} // verus!

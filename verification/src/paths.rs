//! Finding the MuZap folder: the nearest folder, going up from a start,
//! that holds `muzap.ini`.
use vstd::prelude::*;

verus! {

/// Going up from a folder (`has_ini[0]` for the folder itself, `has_ini[i]`
/// for its `i`-th parent, as far as there are parents), the number of levels
/// up to the first folder holding `muzap.ini`, looking at most `max_levels`
/// levels up.
pub fn find_root_upward(has_ini: &[bool], max_levels: usize) -> (r: Option<usize>)
    ensures
        match r {
            Some(i) => i <= max_levels && i < has_ini@.len() && has_ini@[i as int] && forall|j: int| 0 <= j < i ==> !has_ini@[j],
            None => forall|j: int| 0 <= j <= max_levels && j < has_ini@.len() ==> !has_ini@[j],
        },
{
    let mut i: usize = 0;
    while i < has_ini.len()
        invariant
            i <= has_ini.len(),
            forall|j: int| 0 <= j < i ==> !has_ini@[j],
        decreases has_ini.len() - i,
    {
        if i > max_levels {
            return None;
        }
        if has_ini[i] {
            return Some(i);
        }
        i = i + 1;
    }
    None
}

/// The sections of the planned launcher menu.
#[derive(Debug, Clone, Copy, PartialEq, Eq, Structural)]
pub enum LauncherSection {
    Service,
    Settings,
    Updates,
    Tools,
}

} // verus!

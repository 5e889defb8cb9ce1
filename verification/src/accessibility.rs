//! Which window of an application the accessibility API raises.
//!
//! Raising goes through the application's windows in order: with a window-ID
//! hint only the window with that ID is tried, without one every window is,
//! and the first raise that succeeds ends the search. Where the window list
//! cannot be read, the focused window is raised instead, unless its ID is
//! known and differs from the hint.

use vstd::prelude::*;

verus! {

/// Whether the window with ID `id` (`None`: no window element) is one to try
/// raising under the hint.
pub open spec fn raise_candidate(hint: Option<u32>, id: Option<u32>) -> bool {
    id matches Some(w) && (hint matches Some(h) ==> w == h)
}

/// The first window at or after `from` to try raising: its window element
/// exists and, with a hint, its ID is the hint. `None` where no window is
/// left to try.
pub fn next_raise_candidate(hint: Option<u32>, ids: &Vec<Option<u32>>, from: usize) -> (r: Option<
    usize,
>)
    requires
        from <= ids@.len(),
    ensures
        match r {
            Some(i) => {
                &&& from <= i < ids@.len()
                &&& raise_candidate(hint, ids@[i as int])
                &&& forall|k: int| from <= k < i ==> !raise_candidate(hint, #[trigger] ids@[k])
            },
            None => forall|k: int| from <= k < ids@.len() ==> !raise_candidate(hint, #[trigger] ids@[k]),
        },
{
    let mut i = from;
    while i < ids.len()
        invariant
            from <= i <= ids@.len(),
            forall|k: int| from <= k < i ==> !raise_candidate(hint, #[trigger] ids@[k]),
        decreases ids.len() - i,
    {
        let ok = match ids[i] {
            Some(w) => match hint {
                Some(h) => w == h,
                None => true,
            },
            None => false,
        };
        if ok {
            return Some(i);
        }
        i = i + 1;
    }
    None
}

/// Whether the focused window may be raised under the hint: not when its ID
/// was read, is not 0, and differs from the hint.
pub fn focused_raise_allowed(hint: Option<u32>, id_read: bool, wid: u32) -> (r: bool)
    ensures
        r == !(hint matches Some(h) && id_read && wid != 0 && wid != h),
{
    match hint {
        Some(h) => !(id_read && wid != 0 && wid != h),
        None => true,
    }
}

/// The window ID that an accessibility read reports: 0 means none.
pub fn reported_window_id(wid: u32) -> (r: Option<u32>)
    ensures
        r == if wid != 0 {
            Some(wid)
        } else {
            None
        },
{
    if wid != 0 {
        Some(wid)
    } else {
        None
    }
}

} // verus!

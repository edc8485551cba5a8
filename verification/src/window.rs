//! Matching windows by title.
use vstd::prelude::*;
use crate::text::{chars_of, contains, contains_chars};

verus! {

/// `str::to_lowercase`: the string in lower case, as Unicode defines it.
pub uninterp spec fn lowercase(s: Seq<char>) -> Seq<char>;

/// Calls `str::to_lowercase`. Each character becomes one or more
/// characters, so the result is empty exactly when the string is.
#[verifier::external_body]
pub(crate) fn to_lowercase(s: &str) -> (r: String)
    ensures
        r@ == lowercase(s@),
        r@.len() == 0 <==> s@.len() == 0,
{
    s.to_lowercase()
}

/// A title matches a target when the target is empty or, ignoring case,
/// occurs in it.
pub open spec fn title_matches(title: Seq<char>, target: Seq<char>) -> bool {
    target.len() == 0 || contains(lowercase(title), lowercase(target))
}

/// Whether the foreground window, titled `foreground_title`, is the one the
/// target names.
pub fn active_window_matches(target: &str, foreground_title: &str) -> (r: bool)
    ensures
        r == title_matches(foreground_title@, target@),
        target@.len() > 0 && foreground_title@.len() == 0 ==> !r,
{
    if target.is_empty() {
        return true;
    }
    let title = chars_of(to_lowercase(foreground_title).as_str());
    let t = chars_of(to_lowercase(target).as_str());
    proof {
        if title@.len() == 0 {
            assert forall|i: int| !crate::text::occurs_at(title@, t@, i) by {}
        }
    }
    contains_chars(&title, &t)
}

/// A top-level window as the system lists it.
#[derive(Debug)]
pub struct WindowInfo {
    pub visible: bool,
    pub title: String,
    pub left: i32,
    pub top: i32,
    pub right: i32,
    pub bottom: i32,
}

/// The window is a candidate for the target: visible, with a title that
/// contains the target, ignoring case.
pub open spec fn window_matches(w: WindowInfo, target: Seq<char>) -> bool {
    w.visible && w.title@.len() > 0 && contains(lowercase(w.title@), lowercase(target))
}

/// The first window, in the order listed, that matches the target.
pub open spec fn first_match(windows: Seq<WindowInfo>, target: Seq<char>) -> int
    decreases windows.len(),
{
    if windows.len() == 0 {
        0
    } else if window_matches(windows[0], target) {
        0
    } else {
        1 + first_match(windows.skip(1), target)
    }
}

proof fn lemma_first_match(windows: Seq<WindowInfo>, target: Seq<char>, i: int)
    requires
        0 <= i <= windows.len(),
        forall|k: int| 0 <= k < i ==> !window_matches(#[trigger] windows[k], target),
        i < windows.len() ==> window_matches(windows[i], target),
    ensures
        first_match(windows, target) == i,
    decreases i,
{
    if i > 0 {
        assert forall|k: int| 0 <= k < i - 1 implies !window_matches(#[trigger] windows.skip(1)[k], target) by {
            assert(windows.skip(1)[k] == windows[k + 1]);
        }
        lemma_first_match(windows.skip(1), target, i - 1);
    }
}

/// Width and height of the window fit in an `i32`.
pub open spec fn size_in_range(w: WindowInfo) -> bool {
    &&& i32::MIN <= w.right - w.left <= i32::MAX
    &&& i32::MIN <= w.bottom - w.top <= i32::MAX
}

/// The size of the window that the target picks, if any, fits in an `i32`.
pub open spec fn match_size_in_range(windows: Seq<WindowInfo>, target: Seq<char>) -> bool {
    first_match(windows, target) < windows.len() ==> size_in_range(windows[first_match(windows, target)])
}

/// The index of the first listed window that is visible and whose title
/// contains the target, ignoring case; `None` when there is none.
pub fn find_window(target: &str, windows: &Vec<WindowInfo>) -> (r: Option<usize>)
    ensures
        r matches Some(i) ==> i < windows@.len() && i == first_match(windows@, target@),
        r is None <==> first_match(windows@, target@) >= windows@.len(),
{
    let t = chars_of(to_lowercase(target).as_str());
    let mut i: usize = 0;
    while i < windows.len()
        invariant
            i <= windows.len(),
            t@ == lowercase(target@),
            forall|k: int| 0 <= k < i ==> !window_matches(#[trigger] windows@[k], target@),
        decreases windows.len() - i,
    {
        let w = &windows[i];
        if w.visible && !w.title.as_str().is_empty() {
            let title = chars_of(to_lowercase(w.title.as_str()).as_str());
            if contains_chars(&title, &t) {
                proof {
                    lemma_first_match(windows@, target@, i as int);
                    assert(windows@[i as int] == *w);
                }
                return Some(i);
            }
        }
        proof {
            assert(windows@[i as int] == *w);
        }
        i = i + 1;
    }
    proof { lemma_first_match(windows@, target@, i as int); }
    None
}

/// Whether the size of the window that the target picks, if any, fits in an
/// `i32`.
pub fn match_size_fits(target: &str, windows: &Vec<WindowInfo>) -> (r: bool)
    ensures
        r == match_size_in_range(windows@, target@),
{
    match find_window(target, windows) {
        Some(i) => {
            let w = &windows[i];
            let dw = w.right as i64 - w.left as i64;
            let dh = w.bottom as i64 - w.top as i64;
            i32::MIN as i64 <= dw && dw <= i32::MAX as i64 && i32::MIN as i64 <= dh && dh <= i32::MAX as i64
        },
        None => true,
    }
}

/// Position and size, (x, y, width, height), of the first listed window that
/// is visible and whose title contains the target, ignoring case.
pub fn get_window_rect(target: &str, windows: &Vec<WindowInfo>) -> (r: Option<(i32, i32, i32, i32)>)
    requires
        match_size_in_range(windows@, target@),
    ensures
        r == get_window_rect_spec(target@, windows@),
{
    match find_window(target, windows) {
        Some(i) => {
            let w = &windows[i];
            Some((w.left, w.top, w.right - w.left, w.bottom - w.top))
        },
        None => None,
    }
}

/// The same, as an array `[x, y, width, height]`.
pub fn get_window_rect_cmd(title: &str, windows: &Vec<WindowInfo>) -> (r: Option<[i32; 4]>)
    requires
        match_size_in_range(windows@, title@),
    ensures
        r == match get_window_rect_spec(title@, windows@) {
            Some((x, y, w, h)) => Some([x, y, w, h]),
            None => None::<[i32; 4]>,
        },
{
    match get_window_rect(title, windows) {
        Some((x, y, w, h)) => Some([x, y, w, h]),
        None => None,
    }
}

/// What `get_window_rect` returns.
pub open spec fn get_window_rect_spec(target: Seq<char>, windows: Seq<WindowInfo>) -> Option<(i32, i32, i32, i32)> {
    let i = first_match(windows, target);
    if i < windows.len() {
        Some((
            windows[i].left,
            windows[i].top,
            (windows[i].right - windows[i].left) as i32,
            (windows[i].bottom - windows[i].top) as i32,
        ))
    } else {
        None
    }
}

} // verus!

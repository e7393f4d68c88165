//! The quick-access sidebar: what a click on one of its places asks for.
use vstd::prelude::*;

verus! {

/// What the user wants to do with a sidebar entry.
pub enum Action {
    /// Navigate the current tab to this path.
    Navigate(String),
    /// Open this path in a new tab.
    OpenInNewTab(String),
}

/// The root of drive `A` + `i`, such as `C:\`.
pub open spec fn drive_root(i: int) -> Seq<char> {
    seq![((65 + i) as u8) as char, ':', '\\']
}

/// The roots of drives `A:\` to `Z:\`, in order; the sidebar lists those
/// that exist.
pub fn drive_roots() -> (r: Vec<String>)
    ensures
        r@.len() == 26,
        forall|i: int| 0 <= i < 26 ==> (#[trigger] r@[i])@ == drive_root(i),
{
    let mut r: Vec<String> = Vec::new();
    let mut letter: u8 = 65;
    while letter <= 90
        invariant
            65 <= letter <= 91,
            r@.len() == letter - 65,
            forall|i: int| 0 <= i < r@.len() ==> (#[trigger] r@[i])@ == drive_root(i),
        decreases 91 - letter,
    {
        let mut cs: Vec<char> = Vec::new();
        cs.push(letter as char);
        cs.push(':');
        cs.push('\\');
        assert(cs@ =~= drive_root(letter - 65));
        r.push(crate::text::string_from_chars(&cs));
        letter = letter + 1;
    }
    r
}

} // verus!

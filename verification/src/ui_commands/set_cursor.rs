//! The cursor icon of the primary window.

use bevy::window::CursorIcon;
use vstd::prelude::*;

verus! {

/// bevy's `CursorIcon`, of which nothing but equality is used here.
#[verifier::external_type_specification]
#[verifier::external_body]
pub struct ExCursorIcon(CursorIcon);

/// Compares two icons with bevy's `PartialEq` for `CursorIcon`, which is
/// derived on an enum without fields: two icons are equal exactly when they
/// are the same variant.
#[verifier::external_body]
fn same_icon(a: CursorIcon, b: CursorIcon) -> (same: bool)
    ensures
        same == (a == b),
{
    a == b
}

/// Shows `cursor` over the primary window.
pub struct SetCursor {
    pub cursor: CursorIcon,
}

impl SetCursor {
    /// The icon to write to the primary window, given the one it shows now;
    /// `current` is `None` where there is no single primary window.
    ///
    /// Nothing is written where there is no such window, nor where it shows
    /// the wanted icon already: the window then does not count as changed.
    pub fn apply(self, current: Option<CursorIcon>) -> (write: Option<CursorIcon>)
        ensures
            write == match current {
                Some(icon) if icon != self.cursor => Some(self.cursor),
                _ => None,
            },
    {
        match current {
            Some(icon) => {
                if same_icon(icon, self.cursor) {
                    None
                } else {
                    Some(self.cursor)
                }
            },
            None => None,
        }
    }
}

} // verus!

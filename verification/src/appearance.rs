//! The custom background image and the overlay window.

use crate::text;
use vstd::prelude::*;
use vstd::string::*;

verus! {

/// Refuse anything larger than this so a stray 4K image can't wedge startup.
pub const MAX_BYTES: usize = 12582912;

/// What is wrong with a background image, if anything.
pub open spec fn background_error(data_uri: Seq<char>, bytes: nat) -> Option<Seq<char>> {
    if !"data:image/"@.is_prefix_of(data_uri) {
        Some("Not an image data URI"@)
    } else if bytes > MAX_BYTES {
        Some("Image too large ("@ + text::decimal(bytes / 1024 / 1024) + " MB, max 12 MB)"@)
    } else {
        None
    }
}

/// Whether a background may be saved. It is kept as a data URI.
pub fn check_background(data_uri: &str) -> (r: Result<(), String>)
    requires
        data_uri.spec_bytes().len() <= usize::MAX,
    ensures
        match r {
            Ok(_) => background_error(data_uri@, data_uri.spec_bytes().len()) is None,
            Err(why) => background_error(data_uri@, data_uri.spec_bytes().len()) == Some(why@),
        },
{
    if !text::starts_with(data_uri, "data:image/") {
        return Err("Not an image data URI".to_owned());
    }
    let bytes: usize = data_uri.len();
    if bytes > MAX_BYTES {
        let mut why = text::cat(
            "Image too large (",
            text::write_u64((bytes / 1024 / 1024) as u64).as_str(),
        );
        why.append(" MB, max 12 MB)");
        return Err(why);
    }
    Ok(())
}

/// Whether the overlay is shown: over the game, and while it is itself in front.
/// `title` is that of the window in front.
pub fn overlay_shown(title: &str, is_overlay: bool) -> (r: bool)
    ensures
        r == (text::occurs(title@, "League of Legends"@) || is_overlay),
{
    text::contains(title, "League of Legends") || is_overlay
}

/// Turns readings of a key into changes of its state.
#[derive(Clone, Copy, PartialEq, Eq, Debug, Structural)]
pub struct KeyWatch {
    pub was_pressed: bool,
}

impl KeyWatch {
    pub fn new() -> (r: Self)
        ensures
            !r.was_pressed,
    {
        KeyWatch { was_pressed: false }
    }

    /// Takes a reading; the new state where it changed.
    pub fn observe(&mut self, pressed: bool) -> (r: Option<bool>)
        ensures
            final(self).was_pressed == pressed,
            r == (if old(self).was_pressed != pressed {
                Some(pressed)
            } else {
                None
            }),
    {
        if pressed != self.was_pressed {
            self.was_pressed = pressed;
            Some(pressed)
        } else {
            None
        }
    }
}

} // verus!

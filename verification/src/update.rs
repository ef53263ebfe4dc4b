//! What a change of the settings sets off.

use crate::settings;
use crate::settings::Settings;
use crate::text;
use vstd::prelude::*;

verus! {

/// What has to follow a change of the settings, each with its new value.
#[derive(Debug)]
pub struct Changes {
    pub overlay: Option<bool>,
    pub opacity: Option<i64>,
    pub theme: Option<String>,
    pub pinned: Option<bool>,
    /// Auto queue has to be evaluated again: a lobby that is already sitting
    /// full produces no further events.
    pub auto_queue: bool,
}

pub struct ChangesView {
    pub overlay: Option<bool>,
    pub opacity: Option<i64>,
    pub theme: Option<Seq<char>>,
    pub pinned: Option<bool>,
    pub auto_queue: bool,
}

impl View for Changes {
    type V = ChangesView;

    open spec fn view(&self) -> ChangesView {
        ChangesView {
            overlay: self.overlay,
            opacity: self.opacity,
            theme: match self.theme {
                Some(t) => Some(t@),
                None => None,
            },
            pinned: self.pinned,
            auto_queue: self.auto_queue,
        }
    }
}

/// An opacity has changed. Opacities are held in thousandths, and one of them is
/// enough to see.
pub open spec fn opacity_differs(a: i64, b: i64) -> bool {
    a != b
}

/// New settings, with the overlay's place kept where they do not give one: it is
/// managed apart from them.
pub open spec fn updated(
    before: settings::SettingsView,
    new: settings::SettingsView,
) -> settings::SettingsView {
    settings::SettingsView {
        overlay_x: match new.overlay_x {
            Some(x) => Some(x),
            None => before.overlay_x,
        },
        overlay_y: match new.overlay_y {
            Some(y) => Some(y),
            None => before.overlay_y,
        },
        ..new
    }
}

pub open spec fn changes_between(
    before: settings::SettingsView,
    new: settings::SettingsView,
) -> ChangesView {
    ChangesView {
        overlay: if new.overlay_enabled != before.overlay_enabled {
            Some(new.overlay_enabled)
        } else {
            None
        },
        opacity: if opacity_differs(new.overlay_opacity, before.overlay_opacity) {
            Some(new.overlay_opacity)
        } else {
            None
        },
        theme: if new.theme != before.theme {
            Some(new.theme)
        } else {
            None
        },
        pinned: if new.always_on_top != before.always_on_top {
            Some(new.always_on_top)
        } else {
            None
        },
        auto_queue: new.auto_queue != before.auto_queue || new.auto_queue_trigger
            != before.auto_queue_trigger || new.auto_queue_min_members
            != before.auto_queue_min_members,
    }
}

fn compare(before: &Settings, new: &Settings) -> (r: Changes)
    ensures
        r@ == changes_between(before@, new@),
{
    Changes {
        overlay: if new.overlay_enabled != before.overlay_enabled {
            Some(new.overlay_enabled)
        } else {
            None
        },
        opacity: if new.overlay_opacity != before.overlay_opacity {
            Some(new.overlay_opacity)
        } else {
            None
        },
        theme: if !text::same(new.theme.as_str(), before.theme.as_str()) {
            Some(new.theme.clone())
        } else {
            None
        },
        pinned: if new.always_on_top != before.always_on_top {
            Some(new.always_on_top)
        } else {
            None
        },
        auto_queue: new.auto_queue != before.auto_queue || !text::same(
            new.auto_queue_trigger.as_str(),
            before.auto_queue_trigger.as_str(),
        ) || new.auto_queue_min_members != before.auto_queue_min_members,
    }
}

/// Puts new settings in place of the old, and tells what has to follow.
pub fn update_settings(current: &mut Settings, new: Settings) -> (r: Changes)
    ensures
        final(current)@ == updated(old(current)@, new@),
        r@ == changes_between(old(current)@, new@),
{
    let changes = compare(current, &new);
    let x = if new.overlay_x.is_none() {
        current.overlay_x
    } else {
        new.overlay_x
    };
    let y = if new.overlay_y.is_none() {
        current.overlay_y
    } else {
        new.overlay_y
    };
    let mut placed = new;
    placed.overlay_x = x;
    placed.overlay_y = y;
    *current = placed;
    changes
}

/// The overlay has been moved.
pub fn save_overlay_position(current: &mut Settings, x: i64, y: i64)
    ensures
        final(current)@ == (settings::SettingsView {
            overlay_x: Some(x),
            overlay_y: Some(y),
            ..old(current)@
        }),
{
    current.overlay_x = Some(x);
    current.overlay_y = Some(y);
}

/// Saving the settings never loses where the overlay was put, and saving the
/// same settings again sets nothing off.
pub proof fn law_saving_keeps_the_overlay_place(
    before: settings::SettingsView,
    new: settings::SettingsView,
)
    ensures
        before.overlay_x is Some ==> updated(before, new).overlay_x is Some,
        before.overlay_y is Some ==> updated(before, new).overlay_y is Some,
        ({
            let again = changes_between(updated(before, new), new);
            &&& again.overlay is None
            &&& again.opacity is None
            &&& again.theme is None
            &&& again.pinned is None
            &&& !again.auto_queue
        }),
{
}

/// What is told is what has changed, to what it is now; what has not is not told.
pub proof fn law_what_changed_is_told(
    before: settings::SettingsView,
    new: settings::SettingsView,
)
    ensures
        ({
            let told = changes_between(before, new);
            &&& told.overlay is Some <==> before.overlay_enabled != new.overlay_enabled
            &&& told.overlay matches Some(on) ==> on == new.overlay_enabled
            &&& told.opacity is Some <==> before.overlay_opacity != new.overlay_opacity
            &&& told.opacity matches Some(opacity) ==> opacity == new.overlay_opacity
            &&& told.theme is Some <==> before.theme != new.theme
            &&& told.theme matches Some(theme) ==> theme == new.theme
            &&& told.pinned is Some <==> before.always_on_top != new.always_on_top
            &&& told.pinned matches Some(pinned) ==> pinned == new.always_on_top
            &&& told.auto_queue <==> !(before.auto_queue == new.auto_queue
                && before.auto_queue_trigger == new.auto_queue_trigger
                && before.auto_queue_min_members == new.auto_queue_min_members)
        }),
{
}

/// New settings are kept as they are, but for the overlay's place, which stays where
/// they give none.
pub proof fn law_new_settings_are_kept(
    before: settings::SettingsView,
    new: settings::SettingsView,
)
    ensures
        ({
            let after = updated(before, new);
            &&& after == (settings::SettingsView {
                overlay_x: after.overlay_x,
                overlay_y: after.overlay_y,
                ..new
            })
            &&& new.overlay_x is Some ==> after.overlay_x == new.overlay_x
            &&& new.overlay_x is None ==> after.overlay_x == before.overlay_x
            &&& new.overlay_y is Some ==> after.overlay_y == new.overlay_y
            &&& new.overlay_y is None ==> after.overlay_y == before.overlay_y
        }),
{
}

} // verus!

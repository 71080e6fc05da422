//! The decisions of the input probe: which program a keystroke or a mouse
//! gesture speaks for.

use crate::watcher::WatcherEvent;
use vstd::prelude::*;

verus! {

/// The kinds of input the probe hears of.
#[derive(Clone, Copy, Debug, PartialEq, Eq, Structural)]
pub enum EventType {
    KeyPress,
    KeyRelease,
    ButtonPress,
    ButtonRelease,
    MouseMove,
    Wheel,
}

/// The window whose program an input speaks for.
#[derive(Clone, Copy, Debug, PartialEq, Eq, Structural)]
pub enum Target {
    /// The window that holds the keyboard focus.
    Foreground,
    /// The window under the mouse pointer.
    MouseArea,
}

/// The window that input of kind `kind` speaks for: the foreground window
/// for the keyboard, the window under the pointer for buttons and the
/// wheel, none for a mere move of the pointer.
pub open spec fn target_of(kind: EventType) -> Option<Target> {
    match kind {
        EventType::KeyPress | EventType::KeyRelease => Some(Target::Foreground),
        EventType::ButtonPress | EventType::ButtonRelease | EventType::Wheel => Some(
            Target::MouseArea,
        ),
        EventType::MouseMove => None,
    }
}

/// The window whose program the caller has to look up for input of kind
/// `kind`.
pub fn target(kind: EventType) -> (window: Option<Target>)
    ensures
        window == target_of(kind),
{
    match kind {
        EventType::KeyPress | EventType::KeyRelease => Some(Target::Foreground),
        EventType::ButtonPress | EventType::ButtonRelease | EventType::Wheel => Some(
            Target::MouseArea,
        ),
        EventType::MouseMove => None,
    }
}

/// The focus activation of the program at `path`.
pub fn activate(path: String) -> (event: WatcherEvent)
    ensures
        event.path == path,
        !event.is_audio,
        event.active,
{
    WatcherEvent { path, is_audio: false, active: true }
}

/// The report of the input probe on input of kind `kind`, where `path` is
/// the program of the window that [`target`] named, if it could be found.
/// Input that speaks for a window whose program is known is reported as a
/// focus activation of that program; other input is not reported.
pub fn run(kind: EventType, path: Option<String>) -> (event: Option<WatcherEvent>)
    ensures
        event is Some <==> target_of(kind) is Some && path is Some,
        event matches Some(e) ==> e.path == path->0 && !e.is_audio && e.active,
{
    match target(kind) {
        Some(_) => match path {
            Some(path) => Some(activate(path)),
            None => None,
        },
        None => None,
    }
}

} // verus!

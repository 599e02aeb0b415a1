//! The renderer's decisions on each pass of its loop: what to poll, whether
//! to draw, and when an automatic screen is loaded. The loop itself (the
//! clock, the sensors, the panel) belongs to the program.
use vstd::prelude::*;
use crate::scene::string_opt_view;

verus! {

/// Whether the sensors are read again: at most every `sensor_poll_ms`, and
/// never more often than every 250 ms.
pub fn sensor_poll_due(elapsed_ms: u64, sensor_poll_ms: u64) -> (due: bool)
    ensures
        due == (elapsed_ms >= (if sensor_poll_ms > 250 { sensor_poll_ms } else { 250 })),
{
    let interval: u64 = if sensor_poll_ms > 250 { sensor_poll_ms } else { 250 };
    elapsed_ms >= interval
}

/// Whether the system volume is read again: every 100 ms while a volume
/// widget is shown.
pub fn volume_poll_due(volume_shown: bool, elapsed_ms: u64) -> (due: bool)
    ensures
        due == (volume_shown && elapsed_ms >= 100),
{
    volume_shown && elapsed_ms >= 100
}

/// Whether the automatic screen rules are evaluated again: once a second.
pub fn rule_check_due(elapsed_ms: u64) -> (due: bool)
    ensures
        due == (elapsed_ms >= 1000),
{
    elapsed_ms >= 1000
}

/// Whether a frame is drawn: always for the first frame and during a
/// transition; otherwise only when the configuration, the time-dependent
/// content or the visible values changed since the last frame sent.
pub fn should_render(
    first_frame: bool,
    transition_active: bool,
    config_changed: bool,
    dynamic_key_changed: bool,
    signature_changed: bool,
) -> (draw: bool)
    ensures
        draw == (first_frame || transition_active || config_changed || dynamic_key_changed || signature_changed),
{
    first_frame || transition_active || config_changed || dynamic_key_changed || signature_changed
}

/// Where the renderer stands after offering a frame to the panel. When the
/// frame was sent it becomes the one the panel shows and, once the
/// transition has ended, the transition is over and what was drawn is
/// recorded as rendered (so that an unchanged scene is not drawn again).
/// When it was not sent, the panel session is dropped, to be opened again on
/// the next pass, and nothing else changes, so the frame is drawn again.
pub fn after_send<F, T, R, S>(
    sent: bool,
    frame: F,
    transition_finished: bool,
    drawn: R,
    previous_frame: &mut Option<F>,
    transition: &mut Option<T>,
    rendered: &mut Option<R>,
    session: &mut Option<S>,
)
    ensures
        *final(previous_frame) == (if sent { Some(frame) } else { *old(previous_frame) }),
        *final(transition) == (if sent && transition_finished { None } else { *old(transition) }),
        *final(rendered) == (if sent && transition_finished { Some(drawn) } else { *old(rendered) }),
        *final(session) == (if sent { *old(session) } else { None }),
{
    if sent {
        *previous_frame = Some(frame);
        if transition_finished {
            *transition = None;
            *rendered = Some(drawn);
        }
    } else {
        *session = None;
    }
}

/// What the renderer does with the screen the rules ask for.
#[derive(Debug, PartialEq, Eq)]
pub enum ScreenSwitch {
    /// The requested screen is already shown (or nothing is asked for and
    /// nothing automatic is shown).
    Keep,
    /// Load this saved screen.
    Load(String),
    /// The rules no longer ask for a screen; forget the automatic one.
    Forget,
}

/// The screen that counts as automatically shown: none once the user (or
/// anything else) changed the scene since it was loaded.
pub open spec fn effective_active(active: Option<Seq<char>>, scene_changed: bool) -> Option<Seq<char>> {
    if scene_changed {
        None
    } else {
        active
    }
}

/// Decides what to do with the screen the rules ask for: nothing when it is
/// the one automatically shown, load it when it differs, forget the
/// automatic screen when none is asked for.
pub fn screen_switch(requested: Option<String>, active: Option<&str>, scene_changed: bool) -> (switch: ScreenSwitch)
    ensures
        ({
            let shown = effective_active(
                match active {
                    Some(a) => Some(a@),
                    None => None,
                },
                scene_changed,
            );
            &&& string_opt_view(requested) == shown ==> switch == ScreenSwitch::Keep
            &&& string_opt_view(requested) != shown ==> match requested {
                Some(name) => switch matches ScreenSwitch::Load(n) && n@ == name@,
                None => switch == ScreenSwitch::Forget,
            }
        }),
{
    let same = match (&requested, active) {
        (Some(r), Some(a)) => !scene_changed && crate::text::str_equal(r.as_str(), a),
        (None, Some(_)) => scene_changed,
        (Some(_), None) => false,
        (None, None) => true,
    };
    if same {
        return ScreenSwitch::Keep;
    }
    match requested {
        Some(name) => ScreenSwitch::Load(name),
        None => ScreenSwitch::Forget,
    }
}

/// The screen still counted as automatically shown once the switch is
/// decided, before any screen is loaded: none when the scene changed since
/// the automatic screen was loaded or when the rules no longer ask for it;
/// otherwise the same one (a screen that is then loaded takes its place).
pub fn active_after_switch(switch: &ScreenSwitch, active: Option<String>, scene_changed: bool) -> (kept: Option<String>)
    ensures
        kept == (if scene_changed || *switch is Forget { None } else { active }),
{
    if scene_changed {
        return None;
    }
    match switch {
        ScreenSwitch::Forget => None,
        _ => active,
    }
}

} // verus!

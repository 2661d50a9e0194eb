use vstd::prelude::*;

verus! {

/// Whether the process runs in debug mode; fixed at start.
#[derive(Clone, Copy, Debug, PartialEq, Eq, Structural)]
pub struct EnableDebugMode(pub bool);

impl EnableDebugMode {
    pub fn new(enabled: bool) -> (d: EnableDebugMode)
        ensures
            d.0 == enabled,
    {
        EnableDebugMode(enabled)
    }
}

/// Whether the process runs in debug mode, as the main program saw it.
#[derive(Clone, Copy, Debug, PartialEq, Eq, Structural)]
pub struct IsDebugMode(pub bool);

impl IsDebugMode {
    pub fn new(enabled: bool) -> (d: IsDebugMode)
        ensures
            d.0 == enabled,
    {
        IsDebugMode(enabled)
    }
}

/// Switches that only matter in debug mode.
#[derive(Clone, Copy, Debug, PartialEq, Eq, Structural)]
pub struct DebugProps {
    /// Enemies may spawn while debugging.
    pub enemies: bool,
    /// The cursor is held by the window.
    pub lock_cursor: bool,
}

impl Default for DebugProps {
    fn default() -> (d: DebugProps)
        ensures
            !d.enemies,
            d.lock_cursor,
    {
        DebugProps { enemies: false, lock_cursor: true }
    }
}

/// Whether enemies may spawn: always outside debug mode, and in debug mode
/// only when the enemies switch is on.
pub open spec fn spawn_permitted(debug_props: DebugProps, debug_enable: EnableDebugMode) -> bool {
    !debug_enable.0 || debug_props.enemies
}

/// Whether enemies may spawn.
pub fn spawn_enemy_condition(debug_props: &DebugProps, debug_enable: &EnableDebugMode) -> (r: bool)
    ensures
        r == spawn_permitted(*debug_props, *debug_enable),
{
    !debug_enable.0 || debug_props.enemies
}

/// Toggles the cursor lock when the toggle key was just pressed. Returns
/// whether the cursor must now be released and shown.
pub fn unlock_cursor(debug_props: &mut DebugProps, toggle_pressed: bool) -> (release: bool)
    ensures
        final(debug_props).enemies == old(debug_props).enemies,
        final(debug_props).lock_cursor == (old(debug_props).lock_cursor != toggle_pressed),
        release == !final(debug_props).lock_cursor,
{
    if toggle_pressed {
        debug_props.lock_cursor = !debug_props.lock_cursor;
    }
    !debug_props.lock_cursor
}

/// Whether the systems that need a held cursor run.
pub fn unlock_cursor_condition(debug_props: &DebugProps) -> (r: bool)
    ensures
        r == debug_props.lock_cursor,
{
    debug_props.lock_cursor
}

/// Whether the player may shoot: always outside debug mode; in debug mode
/// only while the camera holds the cursor (or when there is no camera).
pub open spec fn shooting_permitted(debug_res: EnableDebugMode, camera_lock: Option<bool>) -> bool {
    !debug_res.0 || match camera_lock {
        Some(l) => l,
        None => true,
    }
}

/// Whether the player may shoot.
pub fn shoot_projectile_condition(
    debug_res: &EnableDebugMode,
    camera_lock: Option<bool>,
) -> (r: bool)
    ensures
        r == shooting_permitted(*debug_res, camera_lock),
{
    if !debug_res.0 {
        return true;
    }
    match camera_lock {
        Some(l) => l,
        None => true,
    }
}

} // verus!

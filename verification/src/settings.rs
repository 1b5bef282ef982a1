//! Which settings a workspace slide runs with.
use vstd::prelude::*;

use crate::registry::MILLISECOND;

verus! {

/// The animations that can be configured on their own.
#[derive(Clone, Copy, Debug, PartialEq, Eq, Structural)]
pub enum AnimationPrefix {
    Movement,
    Transparency,
    Workspace,
}

/// A setting that may be made for one animation only.
#[derive(Debug, PartialEq, Eq)]
pub struct PerAnimation<T> {
    pub movement: Option<T>,
    pub transparency: Option<T>,
    pub workspace: Option<T>,
}

impl<T: Copy> PerAnimation<T> {
    pub open spec fn of(self, prefix: AnimationPrefix) -> Option<T> {
        match prefix {
            AnimationPrefix::Movement => self.movement,
            AnimationPrefix::Transparency => self.transparency,
            AnimationPrefix::Workspace => self.workspace,
        }
    }

    pub fn get(&self, prefix: AnimationPrefix) -> (r: Option<T>)
        ensures
            r == self.of(prefix),
    {
        match prefix {
            AnimationPrefix::Movement => self.movement,
            AnimationPrefix::Transparency => self.transparency,
            AnimationPrefix::Workspace => self.workspace,
        }
    }
}

/// The animation settings. `S` is an animation style.
#[derive(Debug, PartialEq, Eq)]
pub struct AnimationConfig<S> {
    pub enabled: PerAnimation<bool>,
    pub enabled_global: bool,
    pub duration_ms: PerAnimation<u64>,
    pub duration_ms_global: u64,
    pub style: PerAnimation<S>,
    pub style_global: S,
}

/// The setting for one animation, or the global one where none is made for it.
pub open spec fn setting<T>(own: Option<T>, global: T) -> T {
    match own {
        Some(value) => value,
        None => global,
    }
}

/// `Some` when workspace slides should run. Duration and style follow the
/// `workspace` prefix, then the global animation settings. The duration is in nanoseconds.
pub fn animation_settings<S: Copy>(config: &AnimationConfig<S>) -> (r: Option<(u128, S)>)
    ensures
        r is Some <==> config.enabled.workspace == Some(true) || config.enabled_global,
        r matches Some((duration, style)) ==> {
            &&& duration == setting(config.duration_ms.workspace, config.duration_ms_global)
                * MILLISECOND
            &&& style == setting(config.style.workspace, config.style_global)
        },
{
    let prefix_enabled = match config.enabled.get(AnimationPrefix::Workspace) {
        Some(enabled) => enabled,
        None => false,
    };
    if !prefix_enabled && !config.enabled_global {
        return None;
    }
    let duration_ms: u64 = match config.duration_ms.get(AnimationPrefix::Workspace) {
        Some(duration_ms) => duration_ms,
        None => config.duration_ms_global,
    };
    let style = match config.style.get(AnimationPrefix::Workspace) {
        Some(style) => style,
        None => config.style_global,
    };
    Some((duration_ms as u128 * MILLISECOND, style))
}

/// A setting that is made for an animation counts for that animation, and for no other; where none
/// is made, the global one counts.
pub proof fn law_own_setting_overrides_the_global_one<T: Copy>(
    settings: PerAnimation<T>,
    value: T,
    global: T,
)
    ensures
        setting(Some(value), global) == value,
        setting(None::<T>, global) == global,
        settings.of(AnimationPrefix::Movement) == settings.movement,
        settings.of(AnimationPrefix::Transparency) == settings.transparency,
        settings.of(AnimationPrefix::Workspace) == settings.workspace,
{
}

} // verus!

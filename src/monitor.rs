use vstd::prelude::*;

verus! {

/// One mode a monitor supports: a resolution, a colour depth and a refresh rate.
#[derive(Debug, Clone, Copy, PartialEq, Eq, Structural, Hash)]
pub struct VideoMode {
    pub width: u32,
    pub height: u32,
    pub bit_depth: u16,
    pub refresh_rate: u16,
}

/// The index a previous selection resolves to on a monitor with `count` modes:
/// the old index, clamped to the last mode; nothing when there is no mode.
pub open spec fn clamped_index(index: nat, count: nat) -> Option<nat> {
    if count == 0 {
        None
    } else if index < count {
        Some(index)
    } else {
        Some((count - 1) as nat)
    }
}

/// Clamps a previously selected mode index to a sequence of `count` modes.
pub fn clamp_mode_index(index: usize, count: usize) -> (r: Option<usize>)
    ensures
        r matches Some(i) ==> clamped_index(index as nat, count as nat) == Some(i as nat),
        r is None <==> count == 0,
{
    if count == 0 {
        None
    } else if index < count {
        Some(index)
    } else {
        Some(count - 1)
    }
}

/// The mode at `index`, if there is one.
pub open spec fn mode_at(modes: Seq<VideoMode>, index: nat) -> Option<VideoMode> {
    if index < modes.len() {
        Some(modes[index as int])
    } else {
        None
    }
}

/// The outcome of choosing a mode again after the window moved to another monitor.
#[derive(Debug, Copy, Clone, PartialEq, Eq, Structural)]
pub struct Reselection {
    /// The clamped index, or `None` when the new monitor lists no mode.
    pub index: Option<usize>,
    /// The mode now selected differs from the one selected before.
    pub changed: bool,
}

/// Clamps the selected mode index to the new monitor's modes and tells
/// whether the mode it now points at differs from the one selected before.
pub fn reselect_video_mode(
    old_modes: &Vec<VideoMode>,
    index: usize,
    new_modes: &Vec<VideoMode>,
) -> (r: Reselection)
    ensures
        r.index is None <==> new_modes@.len() == 0,
        r.index matches Some(i) ==> clamped_index(index as nat, new_modes@.len()) == Some(i as nat),
        r.changed == match r.index {
            Some(i) => mode_at(old_modes@, index as nat) != Some(new_modes@[i as int]),
            None => mode_at(old_modes@, index as nat) is Some,
        },
{
    let new_index = clamp_mode_index(index, new_modes.len());
    let changed = match new_index {
        Some(i) => {
            if index < old_modes.len() {
                old_modes[index] != new_modes[i]
            } else {
                true
            }
        },
        None => index < old_modes.len(),
    };
    Reselection { index: new_index, changed }
}

/// A selection past the end of the new monitor's modes resolves to its last
/// mode, and never fails while the monitor lists a mode.
pub proof fn lemma_clamp_to_last(index: nat, count: nat)
    requires
        count > 0,
        index >= count,
    ensures
        clamped_index(index, count) == Some((count - 1) as nat),
{
}

} // verus!

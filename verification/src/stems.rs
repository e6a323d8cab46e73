//! Stem identifiers, the solo and mute switches of each stem, and the gains
//! those switches ask for.

use crate::text::{eq_ignore_ascii_case, eq_ignoring_ascii_case, trim, trimmed};
use vstd::hash_map::StringHashMap;
use vstd::prelude::*;
use vstd::string::*;

verus! {

/// The stems the engine knows.
#[derive(Debug, Clone, Copy, PartialEq, Eq, Structural)]
pub enum StemId {
    Dx,
    Music,
    Sfx,
    Foley,
    Ambience,
}

/// Solo and mute switches of one stem.
#[derive(Debug, Clone, Copy, PartialEq, Eq, Structural)]
pub struct StemState {
    pub is_solo: bool,
    pub is_muted: bool,
}

/// The switches of every stem, as read at the start of a frame.
#[derive(Debug, Clone, Copy, PartialEq, Eq, Structural)]
pub struct AudioFrameStemFlags {
    pub dx: StemState,
    pub music: StemState,
    pub foley: StemState,
    pub sfx: StemState,
    pub ambience: StemState,
}

/// The switches of the stems, keyed by stem name.
pub type StemStateMap = StringHashMap<StemState>;

/// A stem name that is none of the known ones.
#[derive(Debug, Clone)]
pub struct UnknownStemId {
    pub stem_id: String,
}

/// Gain each stem is heading for: 0 (silent) or 1 (full).
#[derive(Debug, Clone, Copy, PartialEq, Eq, Structural)]
pub struct StemTargetGains {
    pub dx: u32,
    pub music: u32,
    pub foley: u32,
    pub sfx: u32,
    pub ambience: u32,
}

/// Gain level each stem is at right now.
#[derive(Debug, Clone, Copy, PartialEq, Eq, Structural)]
pub struct StemRuntimeGains {
    pub dx: u32,
    pub music: u32,
    pub foley: u32,
    pub sfx: u32,
    pub ambience: u32,
}

/// Both switches off.
pub open spec fn default_state() -> StemState {
    StemState { is_solo: false, is_muted: false }
}

/// The state a map holds for `name`, both switches off where it holds none.
pub open spec fn state_or_default(map: Map<Seq<char>, StemState>, name: Seq<char>) -> StemState {
    if map.contains_key(name) {
        map[name]
    } else {
        default_state()
    }
}

/// The flags a map of states stands for.
pub open spec fn flags_of(map: Map<Seq<char>, StemState>) -> AudioFrameStemFlags {
    AudioFrameStemFlags {
        dx: state_or_default(map, "dx"@),
        music: state_or_default(map, "music"@),
        foley: state_or_default(map, "foley"@),
        sfx: state_or_default(map, "sfx"@),
        ambience: state_or_default(map, "ambience"@),
    }
}

/// The map in which every known stem has both switches off.
pub open spec fn default_states() -> Map<Seq<char>, StemState> {
    Map::<Seq<char>, StemState>::empty().insert("dx"@, default_state()).insert(
        "music"@,
        default_state(),
    ).insert("sfx"@, default_state()).insert("foley"@, default_state()).insert(
        "ambience"@,
        default_state(),
    )
}

/// The stem that `text` names once trimmed, whatever the case of its letters.
pub open spec fn parsed_stem(text: Seq<char>) -> Option<StemId> {
    let t = trimmed(text);
    if eq_ignoring_ascii_case(t, "dx"@) {
        Some(StemId::Dx)
    } else if eq_ignoring_ascii_case(t, "music"@) {
        Some(StemId::Music)
    } else if eq_ignoring_ascii_case(t, "sfx"@) {
        Some(StemId::Sfx)
    } else if eq_ignoring_ascii_case(t, "foley"@) {
        Some(StemId::Foley)
    } else if eq_ignoring_ascii_case(t, "ambience"@) {
        Some(StemId::Ambience)
    } else {
        None
    }
}

/// Solo overrides mute: while any stem is solo, exactly the solo stems play;
/// otherwise every stem plays that is not muted.
pub open spec fn target_gain_of(any_solo: bool, stem: StemState) -> u32 {
    if any_solo {
        if stem.is_solo {
            1
        } else {
            0
        }
    } else if stem.is_muted && !stem.is_solo {
        0
    } else {
        1
    }
}

impl StemId {
    /// The canonical lower-case name of the stem.
    pub open spec fn name(self) -> Seq<char> {
        match self {
            StemId::Dx => "dx"@,
            StemId::Music => "music"@,
            StemId::Sfx => "sfx"@,
            StemId::Foley => "foley"@,
            StemId::Ambience => "ambience"@,
        }
    }

    /// The canonical lower-case name of the stem.
    pub fn as_str(self) -> (name: &'static str)
        ensures
            name@ == self.name(),
    {
        match self {
            StemId::Dx => "dx",
            StemId::Music => "music",
            StemId::Sfx => "sfx",
            StemId::Foley => "foley",
            StemId::Ambience => "ambience",
        }
    }

    /// Reads a stem name, ignoring surrounding white space and ASCII case.
    pub fn parse(stem_id: &str) -> (stem: Option<StemId>)
        ensures
            stem == parsed_stem(stem_id@),
    {
        let t = trim(stem_id);
        if eq_ignore_ascii_case(t, "dx") {
            Some(StemId::Dx)
        } else if eq_ignore_ascii_case(t, "music") {
            Some(StemId::Music)
        } else if eq_ignore_ascii_case(t, "sfx") {
            Some(StemId::Sfx)
        } else if eq_ignore_ascii_case(t, "foley") {
            Some(StemId::Foley)
        } else if eq_ignore_ascii_case(t, "ambience") {
            Some(StemId::Ambience)
        } else {
            None
        }
    }
}

impl Default for StemState {
    fn default() -> (state: Self)
        ensures
            state == default_state(),
    {
        StemState { is_solo: false, is_muted: false }
    }
}

impl Default for AudioFrameStemFlags {
    fn default() -> (flags: Self)
        ensures
            flags == flags_of(Map::empty()),
    {
        let off = StemState { is_solo: false, is_muted: false };
        AudioFrameStemFlags { dx: off, music: off, foley: off, sfx: off, ambience: off }
    }
}

impl AudioFrameStemFlags {
    /// Some stem is solo.
    pub open spec fn has_solo(self) -> bool {
        self.dx.is_solo || self.music.is_solo || self.sfx.is_solo || self.foley.is_solo
            || self.ambience.is_solo
    }

    /// Reads the flags out of a map of states; a stem the map does not hold
    /// has both switches off.
    pub fn from_map(map: &StemStateMap) -> (flags: Self)
        ensures
            flags == flags_of(map@),
    {
        AudioFrameStemFlags {
            dx: lookup_state(map, "dx"),
            music: lookup_state(map, "music"),
            foley: lookup_state(map, "foley"),
            sfx: lookup_state(map, "sfx"),
            ambience: lookup_state(map, "ambience"),
        }
    }

    /// Reads the flags out of what could be seen of the shared states:
    /// where they could not be read, every switch counts as off.
    pub fn from_snapshot(snapshot: Option<&StemStateMap>) -> (flags: Self)
        ensures
            flags == match snapshot {
                Some(map) => flags_of(map@),
                None => flags_of(Map::empty()),
            },
    {
        match snapshot {
            Some(map) => Self::from_map(map),
            None => Self::default(),
        }
    }

    /// Tells whether some stem is solo.
    pub fn any_solo(self) -> (solo: bool)
        ensures
            solo == self.has_solo(),
    {
        self.dx.is_solo || self.music.is_solo || self.sfx.is_solo || self.foley.is_solo
            || self.ambience.is_solo
    }
}

impl StemTargetGains {
    /// The target gains that `flags` ask for.
    pub open spec fn of(flags: AudioFrameStemFlags) -> StemTargetGains {
        StemTargetGains {
            dx: target_gain_of(flags.has_solo(), flags.dx),
            music: target_gain_of(flags.has_solo(), flags.music),
            foley: target_gain_of(flags.has_solo(), flags.foley),
            sfx: target_gain_of(flags.has_solo(), flags.sfx),
            ambience: target_gain_of(flags.has_solo(), flags.ambience),
        }
    }

    /// Derives the target gains from the flags of a frame.
    pub fn from_flags(flags: AudioFrameStemFlags) -> (gains: Self)
        ensures
            gains == Self::of(flags),
    {
        let any_solo = flags.any_solo();
        StemTargetGains {
            dx: gain_for(any_solo, flags.dx),
            music: gain_for(any_solo, flags.music),
            foley: gain_for(any_solo, flags.foley),
            sfx: gain_for(any_solo, flags.sfx),
            ambience: gain_for(any_solo, flags.ambience),
        }
    }
}

impl StemRuntimeGains {
    /// Every stem at full gain, which is `unity` levels.
    pub fn full(unity: u32) -> (gains: Self)
        ensures
            gains == (StemRuntimeGains {
                dx: unity,
                music: unity,
                foley: unity,
                sfx: unity,
                ambience: unity,
            }),
    {
        StemRuntimeGains { dx: unity, music: unity, foley: unity, sfx: unity, ambience: unity }
    }
}

fn lookup_state(map: &StemStateMap, name: &str) -> (state: StemState)
    ensures
        state == state_or_default(map@, name@),
{
    match map.get(name) {
        Some(state) => *state,
        None => StemState { is_solo: false, is_muted: false },
    }
}

fn gain_for(any_solo: bool, stem: StemState) -> (gain: u32)
    ensures
        gain == target_gain_of(any_solo, stem),
{
    if any_solo {
        if stem.is_solo {
            1
        } else {
            0
        }
    } else if stem.is_muted && !stem.is_solo {
        0
    } else {
        1
    }
}

/// The map in which every known stem has both switches off.
pub fn default_stem_states() -> (states: StemStateMap)
    ensures
        states@ == default_states(),
        flags_of(states@) == flags_of(Map::empty()),
{
    let off = StemState { is_solo: false, is_muted: false };
    let mut states: StemStateMap = StringHashMap::new();
    states.insert(String::from_str("dx"), off);
    states.insert(String::from_str("music"), off);
    states.insert(String::from_str("sfx"), off);
    states.insert(String::from_str("foley"), off);
    states.insert(String::from_str("ambience"), off);
    states
}

/// Sets the switches of the stem that `stem_id` names. An unknown name
/// changes nothing and is handed back.
pub fn set_stem_state(states: &mut StemStateMap, stem_id: &str, is_solo: bool, is_muted: bool) -> (done:
    Result<(), UnknownStemId>)
    ensures
        match parsed_stem(stem_id@) {
            Some(stem) => done is Ok && final(states)@ == old(states)@.insert(
                stem.name(),
                StemState { is_solo, is_muted },
            ),
            None => done is Err && done->Err_0.stem_id@ == stem_id@ && final(states)@ == old(
                states,
            )@,
        },
{
    match StemId::parse(stem_id) {
        Some(stem) => {
            states.insert(String::from_str(stem.as_str()), StemState { is_solo, is_muted });
            Ok(())
        },
        None => Err(UnknownStemId { stem_id: String::from_str(stem_id) }),
    }
}

/// While some stem is solo, every stem that is not solo is heading for
/// silence and every solo stem for full gain, muted or not.
pub proof fn lemma_solo_overrides_mute(flags: AudioFrameStemFlags)
    requires
        flags.has_solo(),
    ensures
        StemTargetGains::of(flags).dx == if flags.dx.is_solo { 1u32 } else { 0u32 },
        StemTargetGains::of(flags).music == if flags.music.is_solo { 1u32 } else { 0u32 },
        StemTargetGains::of(flags).foley == if flags.foley.is_solo { 1u32 } else { 0u32 },
        StemTargetGains::of(flags).sfx == if flags.sfx.is_solo { 1u32 } else { 0u32 },
        StemTargetGains::of(flags).ambience == if flags.ambience.is_solo { 1u32 } else { 0u32 },
{
}

/// With no stem solo, exactly the muted stems are heading for silence.
pub proof fn lemma_mute_without_solo(flags: AudioFrameStemFlags)
    requires
        !flags.has_solo(),
    ensures
        StemTargetGains::of(flags).dx == if flags.dx.is_muted { 0u32 } else { 1u32 },
        StemTargetGains::of(flags).music == if flags.music.is_muted { 0u32 } else { 1u32 },
        StemTargetGains::of(flags).foley == if flags.foley.is_muted { 0u32 } else { 1u32 },
        StemTargetGains::of(flags).sfx == if flags.sfx.is_muted { 0u32 } else { 1u32 },
        StemTargetGains::of(flags).ambience == if flags.ambience.is_muted { 0u32 } else { 1u32 },
{
}

} // verus!

//! The debug flags a configuration can name: each has a configuration name,
//! a display label and a stable position in the table of pointer chains.

use vstd::prelude::*;
use vstd::string::{StrSliceExecFns, StringExecFns};

verus! {

/// Number of known flags.
pub const FLAG_COUNT: usize = 20;

/// A debug flag of the game.
#[derive(Debug, Clone, Copy, PartialEq, Eq, Structural)]
pub enum FlagId {
    AllNoDamage,
    InfStamina,
    InfFocus,
    InfConsumables,
    Deathcam,
    NoDeath,
    OneShot,
    EvtDraw,
    EvtDisable,
    AiDisable,
    RendChr,
    RendObj,
    RendMap,
    RendMeshHi,
    RendMeshLo,
    AllDrawHit,
    IkFootRay,
    DebugSphere1,
    DebugSphere2,
    Gravity,
}

impl FlagId {
    /// The name that configurations use for the flag.
    pub open spec fn spec_name(self) -> Seq<char> {
        match self {
            FlagId::AllNoDamage => "all_no_damage"@,
            FlagId::InfStamina => "inf_stamina"@,
            FlagId::InfFocus => "inf_focus"@,
            FlagId::InfConsumables => "inf_consumables"@,
            FlagId::Deathcam => "deathcam"@,
            FlagId::NoDeath => "no_death"@,
            FlagId::OneShot => "one_shot"@,
            FlagId::EvtDraw => "evt_draw"@,
            FlagId::EvtDisable => "evt_disable"@,
            FlagId::AiDisable => "ai_disable"@,
            FlagId::RendChr => "rend_chr"@,
            FlagId::RendObj => "rend_obj"@,
            FlagId::RendMap => "rend_map"@,
            FlagId::RendMeshHi => "rend_mesh_hi"@,
            FlagId::RendMeshLo => "rend_mesh_lo"@,
            FlagId::AllDrawHit => "all_draw_hit"@,
            FlagId::IkFootRay => "ik_foot_ray"@,
            FlagId::DebugSphere1 => "debug_sphere_1"@,
            FlagId::DebugSphere2 => "debug_sphere_2"@,
            FlagId::Gravity => "gravity"@,
        }
    }

    /// The flag's position in the table of pointer chains.
    pub open spec fn spec_index(self) -> nat {
        match self {
            FlagId::AllNoDamage => 0,
            FlagId::InfStamina => 1,
            FlagId::InfFocus => 2,
            FlagId::InfConsumables => 3,
            FlagId::Deathcam => 4,
            FlagId::NoDeath => 5,
            FlagId::OneShot => 6,
            FlagId::EvtDraw => 7,
            FlagId::EvtDisable => 8,
            FlagId::AiDisable => 9,
            FlagId::RendChr => 10,
            FlagId::RendObj => 11,
            FlagId::RendMap => 12,
            FlagId::RendMeshHi => 13,
            FlagId::RendMeshLo => 14,
            FlagId::AllDrawHit => 15,
            FlagId::IkFootRay => 16,
            FlagId::DebugSphere1 => 17,
            FlagId::DebugSphere2 => 18,
            FlagId::Gravity => 19,
        }
    }

    /// The label shown for the flag.
    pub open spec fn spec_label(self) -> Seq<char> {
        match self {
            FlagId::AllNoDamage => "All no damage"@,
            FlagId::InfStamina => "Inf Stamina"@,
            FlagId::InfFocus => "Inf Focus"@,
            FlagId::InfConsumables => "Inf Consumables"@,
            FlagId::Deathcam => "Deathcam"@,
            FlagId::NoDeath => "No death"@,
            FlagId::OneShot => "One shot"@,
            FlagId::EvtDraw => "Event draw"@,
            FlagId::EvtDisable => "Event disable"@,
            FlagId::AiDisable => "AI disable"@,
            FlagId::RendChr => "Render characters"@,
            FlagId::RendObj => "Render objects"@,
            FlagId::RendMap => "Render map"@,
            FlagId::RendMeshHi => "Collision mesh (hi)"@,
            FlagId::RendMeshLo => "Collision mesh (lo)"@,
            FlagId::AllDrawHit => "All draw hit"@,
            FlagId::IkFootRay => "IK foot ray"@,
            FlagId::DebugSphere1 => "Debug sphere 1"@,
            FlagId::DebugSphere2 => "Debug sphere 2"@,
            FlagId::Gravity => "Gravity"@,
        }
    }

    pub fn index(&self) -> (r: usize)
        ensures
            r == self.spec_index(),
            r < FLAG_COUNT,
    {
        match self {
            FlagId::AllNoDamage => 0,
            FlagId::InfStamina => 1,
            FlagId::InfFocus => 2,
            FlagId::InfConsumables => 3,
            FlagId::Deathcam => 4,
            FlagId::NoDeath => 5,
            FlagId::OneShot => 6,
            FlagId::EvtDraw => 7,
            FlagId::EvtDisable => 8,
            FlagId::AiDisable => 9,
            FlagId::RendChr => 10,
            FlagId::RendObj => 11,
            FlagId::RendMap => 12,
            FlagId::RendMeshHi => 13,
            FlagId::RendMeshLo => 14,
            FlagId::AllDrawHit => 15,
            FlagId::IkFootRay => 16,
            FlagId::DebugSphere1 => 17,
            FlagId::DebugSphere2 => 18,
            FlagId::Gravity => 19,
        }
    }

    pub fn label(&self) -> (r: &'static str)
        ensures
            r@ == self.spec_label(),
    {
        match self {
            FlagId::AllNoDamage => "All no damage",
            FlagId::InfStamina => "Inf Stamina",
            FlagId::InfFocus => "Inf Focus",
            FlagId::InfConsumables => "Inf Consumables",
            FlagId::Deathcam => "Deathcam",
            FlagId::NoDeath => "No death",
            FlagId::OneShot => "One shot",
            FlagId::EvtDraw => "Event draw",
            FlagId::EvtDisable => "Event disable",
            FlagId::AiDisable => "AI disable",
            FlagId::RendChr => "Render characters",
            FlagId::RendObj => "Render objects",
            FlagId::RendMap => "Render map",
            FlagId::RendMeshHi => "Collision mesh (hi)",
            FlagId::RendMeshLo => "Collision mesh (lo)",
            FlagId::AllDrawHit => "All draw hit",
            FlagId::IkFootRay => "IK foot ray",
            FlagId::DebugSphere1 => "Debug sphere 1",
            FlagId::DebugSphere2 => "Debug sphere 2",
            FlagId::Gravity => "Gravity",
        }
    }

    /// The flag that configurations call `name`, if any.
    pub fn from_name(name: &str) -> (r: Option<FlagId>)
        ensures
            match r {
                Some(f) => f.spec_name() == name@,
                None => forall|f: FlagId| f.spec_name() != name@,
            },
    {
        if str_eq(name, "all_no_damage") {
            Some(FlagId::AllNoDamage)
        } else if str_eq(name, "inf_stamina") {
            Some(FlagId::InfStamina)
        } else if str_eq(name, "inf_focus") {
            Some(FlagId::InfFocus)
        } else if str_eq(name, "inf_consumables") {
            Some(FlagId::InfConsumables)
        } else if str_eq(name, "deathcam") {
            Some(FlagId::Deathcam)
        } else if str_eq(name, "no_death") {
            Some(FlagId::NoDeath)
        } else if str_eq(name, "one_shot") {
            Some(FlagId::OneShot)
        } else if str_eq(name, "evt_draw") {
            Some(FlagId::EvtDraw)
        } else if str_eq(name, "evt_disable") {
            Some(FlagId::EvtDisable)
        } else if str_eq(name, "ai_disable") {
            Some(FlagId::AiDisable)
        } else if str_eq(name, "rend_chr") {
            Some(FlagId::RendChr)
        } else if str_eq(name, "rend_obj") {
            Some(FlagId::RendObj)
        } else if str_eq(name, "rend_map") {
            Some(FlagId::RendMap)
        } else if str_eq(name, "rend_mesh_hi") {
            Some(FlagId::RendMeshHi)
        } else if str_eq(name, "rend_mesh_lo") {
            Some(FlagId::RendMeshLo)
        } else if str_eq(name, "all_draw_hit") {
            Some(FlagId::AllDrawHit)
        } else if str_eq(name, "ik_foot_ray") {
            Some(FlagId::IkFootRay)
        } else if str_eq(name, "debug_sphere_1") {
            Some(FlagId::DebugSphere1)
        } else if str_eq(name, "debug_sphere_2") {
            Some(FlagId::DebugSphere2)
        } else if str_eq(name, "gravity") {
            Some(FlagId::Gravity)
        } else {
            proof {
                assert forall|f: FlagId| f.spec_name() != name@ by {
                    match f {
                        FlagId::AllNoDamage => {},
                        FlagId::InfStamina => {},
                        FlagId::InfFocus => {},
                        FlagId::InfConsumables => {},
                        FlagId::Deathcam => {},
                        FlagId::NoDeath => {},
                        FlagId::OneShot => {},
                        FlagId::EvtDraw => {},
                        FlagId::EvtDisable => {},
                        FlagId::AiDisable => {},
                        FlagId::RendChr => {},
                        FlagId::RendObj => {},
                        FlagId::RendMap => {},
                        FlagId::RendMeshHi => {},
                        FlagId::RendMeshLo => {},
                        FlagId::AllDrawHit => {},
                        FlagId::IkFootRay => {},
                        FlagId::DebugSphere1 => {},
                        FlagId::DebugSphere2 => {},
                        FlagId::Gravity => {},
                    }
                }
            }
            None
        }
    }
}

/// Whether two strings hold the same characters.
pub fn str_eq(a: &str, b: &str) -> (r: bool)
    ensures
        r == (a@ == b@),
{
    let n = a.unicode_len();
    if n != b.unicode_len() {
        return false;
    }
    let mut i: usize = 0;
    while i < n
        invariant
            i <= n,
            n == a@.len(),
            n == b@.len(),
            forall|j: int| 0 <= j < i ==> a@[j] == b@[j],
        decreases n - i,
    {
        if a.get_char(i) != b.get_char(i) {
            return false;
        }
        i = i + 1;
    }
    assert(a@ =~= b@);
    true
}

/// A flag as a configuration names it, with its display label.
#[derive(Debug, Clone)]
pub struct FlagSpec {
    pub label: String,
    pub flag: FlagId,
}

impl FlagSpec {
    pub fn new(label: &str, flag: FlagId) -> (r: FlagSpec)
        ensures
            r.label@ == label@,
            r.flag == flag,
    {
        FlagSpec { label: String::from_str(label), flag }
    }

    /// The flag named `value`, with its label; for an unknown name the error
    /// says which name it was.
    pub fn try_from(value: String) -> (r: Result<FlagSpec, String>)
        ensures
            match r {
                Ok(s) => s.flag.spec_name() == value@ && s.label@ == s.flag.spec_label(),
                Err(msg) => (forall|f: FlagId| f.spec_name() != value@) && msg@ == "\""@ + value@
                    + "\" is not a valid flag specifier"@,
            },
    {
        match FlagId::from_name(value.as_str()) {
            Some(f) => Ok(FlagSpec::new(f.label(), f)),
            None => {
                let msg = String::from_str("\"");
                let msg = msg.concat(value.as_str());
                let msg = msg.concat("\" is not a valid flag specifier");
                Err(msg)
            },
        }
    }
}

} // verus!

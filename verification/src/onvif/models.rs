//! What clients ask for and what they are told.

use vstd::prelude::*;

verus! {

/// A media profile of the camera.
pub struct OnvifProfile {
    pub token: String,
    pub name: String,
}

/// The media profiles of the camera.
pub struct OnvifProfilesResponse {
    pub media_url: String,
    pub configured_profile_token: Option<String>,
    pub profiles: Vec<OnvifProfile>,
}

/// A position that the camera has stored.
pub struct OnvifPreset {
    pub token: String,
    pub name: String,
}

/// The positions that the camera has stored.
pub struct OnvifPresetsResponse {
    pub ptz_url: String,
    pub profile_token: String,
    pub presets: Vec<OnvifPreset>,
}

/// Which profile's presets are asked for.
pub struct PresetsQuery {
    pub profile_token: Option<String>,
}

/// The velocities to move with, each as the decimal text that is sent to the
/// camera; without a zoom velocity the zoom stays.
pub struct MoveRequest {
    pub x: String,
    pub y: String,
    pub zoom: Option<String>,
    pub profile_token: Option<String>,
}

/// Which profile is to stop.
pub struct StopRequest {
    pub profile_token: Option<String>,
}

/// The preset to go to.
pub struct PresetRequest {
    pub preset_token: String,
    pub profile_token: Option<String>,
}

/// A token and the name that goes with it.
pub struct Named {
    pub token: Seq<char>,
    pub name: Seq<char>,
}

impl View for OnvifProfile {
    type V = Named;

    open spec fn view(&self) -> Named {
        Named { token: self.token@, name: self.name@ }
    }
}

impl View for OnvifPreset {
    type V = Named;

    open spec fn view(&self) -> Named {
        Named { token: self.token@, name: self.name@ }
    }
}

} // verus!

//! Configuration of the server.

use vstd::prelude::*;
use vstd::string::StringExecFns;
use vstd::utf8::is_ascii_chars;
use crate::onvif::service::{OnvifAuthMode, OnvifConfig};
use crate::onvif::url::{device_url, service_url};
use crate::outside::{ascii_lowered, lowercase, to_lowercase};
use crate::text::{has_suffix, law_suffix};

verus! {

/// The environment variables that configure the server, each `None` if it is not
/// set.
pub struct AppEnv {
    pub webrtc_url: Option<String>,
    pub onvif_url: Option<String>,
    pub onvif_username: Option<String>,
    pub onvif_password: Option<String>,
    pub onvif_profile_token: Option<String>,
    pub onvif_auth_mode: Option<String>,
}

/// Configuration of the server: where the video is, and how the camera is reached.
pub struct AppConfig {
    pub webrtc_url: String,
    pub onvif: OnvifConfig,
}

/// The way of authentication that a word in lower case stands for.
pub open spec fn auth_mode_of(word: Seq<char>) -> Result<OnvifAuthMode, Seq<char>> {
    if word == "basic"@ {
        Ok(OnvifAuthMode::Basic)
    } else if word == "wsse"@ {
        Ok(OnvifAuthMode::Wsse)
    } else {
        Err("ONVIF_AUTH_MODE must be one of basic|wsse, got: "@ + word)
    }
}

/// What the outcome of reading a way of authentication says.
pub open spec fn mode_outcome(outcome: Result<OnvifAuthMode, String>) -> Result<
    OnvifAuthMode,
    Seq<char>,
> {
    match outcome {
        Ok(mode) => Ok(mode),
        Err(reason) => Err(reason@),
    }
}

/// Reads a word in lower case as a way of authentication.
pub fn parse_auth_mode(word: &str) -> (outcome: Result<OnvifAuthMode, String>)
    ensures
        mode_outcome(outcome) == auth_mode_of(word@),
{
    let owned = word.to_owned();
    if owned == "basic".to_owned() {
        Ok(OnvifAuthMode::Basic)
    } else if owned == "wsse".to_owned() {
        Ok(OnvifAuthMode::Wsse)
    } else {
        let mut reason = "ONVIF_AUTH_MODE must be one of basic|wsse, got: ".to_owned();
        reason.append(word);
        Err(reason)
    }
}

impl AppEnv {
    /// The configured way of authentication; the header in the envelope if nothing
    /// is configured.
    pub open spec fn auth_mode(self) -> Result<OnvifAuthMode, Seq<char>> {
        match self.onvif_auth_mode {
            Some(text) => auth_mode_of(lowercase(text@)),
            None => Ok(OnvifAuthMode::Wsse),
        }
    }

    /// The variables that have no default are set.
    pub open spec fn has_required(self) -> bool {
        self.webrtc_url is Some && self.onvif_url is Some && self.onvif_username is Some
            && self.onvif_password is Some
    }

    /// The complaint about the first variable that is missing or holds no usable
    /// value.
    pub open spec fn complaint(self) -> Option<Seq<char>> {
        if self.webrtc_url is None {
            Some("WEBRTC_URL is required"@)
        } else if self.onvif_url is None {
            Some("ONVIF_URL is required"@)
        } else if self.onvif_username is None {
            Some("ONVIF_USERNAME is required"@)
        } else if self.onvif_password is None {
            Some("ONVIF_PASSWORD is required"@)
        } else if self.auth_mode() is Err {
            Some(self.auth_mode()->Err_0)
        } else {
            None
        }
    }
}

impl AppConfig {
    /// The configuration holds what the variables say.
    pub open spec fn reflects(self, env: AppEnv) -> bool {
        &&& Some(self.webrtc_url) == env.webrtc_url
        &&& env.onvif_url matches Some(url) && {
            &&& self.onvif.media_url@ == service_url(url@)
            &&& self.onvif.ptz_url@ == device_url(url@)
        }
        &&& Some(self.onvif.username) == env.onvif_username
        &&& Some(self.onvif.password) == env.onvif_password
        &&& self.onvif.profile_token == env.onvif_profile_token
        &&& env.auth_mode() == Ok::<OnvifAuthMode, Seq<char>>(self.onvif.auth_mode)
    }

    /// Reads the configuration from the environment; the first variable that is
    /// missing or holds no usable value is reported.
    pub fn from_env(env: AppEnv) -> (outcome: Result<AppConfig, String>)
        ensures
            match outcome {
                Ok(cfg) => env.complaint() is None && cfg.reflects(env),
                Err(reason) => env.complaint() == Some(reason@),
            },
            env.onvif_auth_mode matches Some(text) ==> env.has_required() && is_ascii_chars(text@)
                ==> match auth_mode_of(ascii_lowered(text@)) {
                Ok(mode) => outcome matches Ok(cfg) && cfg.onvif.auth_mode == mode,
                Err(reason) => outcome matches Err(message) && message@ == reason,
            },
    {
        let webrtc_url = match env.webrtc_url {
            Some(url) => url,
            None => return Err("WEBRTC_URL is required".to_owned()),
        };
        let onvif_url = match env.onvif_url {
            Some(url) => url,
            None => return Err("ONVIF_URL is required".to_owned()),
        };
        let onvif_username = match env.onvif_username {
            Some(name) => name,
            None => return Err("ONVIF_USERNAME is required".to_owned()),
        };
        let onvif_password = match env.onvif_password {
            Some(password) => password,
            None => return Err("ONVIF_PASSWORD is required".to_owned()),
        };
        let auth_mode = match env.onvif_auth_mode {
            Some(text) => {
                let word = to_lowercase(text.as_str());
                match parse_auth_mode(word.as_str()) {
                    Ok(mode) => mode,
                    Err(reason) => return Err(reason),
                }
            },
            None => OnvifAuthMode::Wsse,
        };
        Ok(
            AppConfig {
                webrtc_url,
                onvif: OnvifConfig::from_base_url(
                    onvif_url,
                    onvif_username,
                    onvif_password,
                    env.onvif_profile_token,
                    auth_mode,
                ),
            },
        )
    }
}

/// Two words stand for a way of authentication, each for its own; of any other word the
/// complaint ends with the word.
pub proof fn law_words_for_authentication(word: Seq<char>)
    ensures
        auth_mode_of(word) == Ok::<OnvifAuthMode, Seq<char>>(OnvifAuthMode::Basic) <==> word == seq![
            'b',
            'a',
            's',
            'i',
            'c',
        ],
        auth_mode_of(word) == Ok::<OnvifAuthMode, Seq<char>>(OnvifAuthMode::Wsse) <==> word == seq![
            'w',
            's',
            's',
            'e',
        ],
        auth_mode_of(word) matches Err(reason) ==> has_suffix(reason, word)
            && "ONVIF_AUTH_MODE must be one of basic|wsse, got: "@.is_prefix_of(reason),
{
    reveal_strlit("basic");
    reveal_strlit("wsse");
    assert("basic"@ =~= seq!['b', 'a', 's', 'i', 'c']);
    assert("wsse"@ =~= seq!['w', 's', 's', 'e']);
    assert(seq!['b', 'a', 's', 'i', 'c'].len() != seq!['w', 's', 's', 'e'].len());
    law_suffix(word, "ONVIF_AUTH_MODE must be one of basic|wsse, got: "@, word);
}

/// The server is configured exactly if the four variables without a default are set and the way
/// of authentication, if one is set, can be used; the first of the four that is missing is the one
/// that is reported, and only if none is missing the way of authentication is.
pub proof fn law_server_is_configured(env: AppEnv)
    ensures
        env.complaint() is None <==> env.has_required() && env.auth_mode() is Ok,
        env.onvif_auth_mode is None ==> env.auth_mode() == Ok::<OnvifAuthMode, Seq<char>>(
            OnvifAuthMode::Wsse,
        ),
        env.onvif_auth_mode is Some ==> env.auth_mode() == auth_mode_of(
            lowercase(env.onvif_auth_mode->0@),
        ),
        env.has_required() <==> env.webrtc_url is Some && env.onvif_url is Some
            && env.onvif_username is Some && env.onvif_password is Some,
        env.webrtc_url is None ==> env.complaint() == Some("WEBRTC_URL is required"@),
        env.webrtc_url is Some && env.onvif_url is None ==> env.complaint() == Some(
            "ONVIF_URL is required"@,
        ),
        env.webrtc_url is Some && env.onvif_url is Some && env.onvif_username is None
            ==> env.complaint() == Some("ONVIF_USERNAME is required"@),
        env.webrtc_url is Some && env.onvif_url is Some && env.onvif_username is Some
            && env.onvif_password is None ==> env.complaint() == Some("ONVIF_PASSWORD is required"@),
        env.has_required() && env.auth_mode() is Err ==> env.complaint() == Some(
            env.auth_mode()->Err_0,
        ),
{
}

/// Every variable is taken over into its own place, and the address serves for both services of
/// the camera.
pub proof fn law_server_variables_are_taken_over(env: AppEnv, cfg: AppConfig)
    requires
        cfg.reflects(env),
    ensures
        env.webrtc_url is Some && cfg.webrtc_url == env.webrtc_url->0,
        env.onvif_username is Some && cfg.onvif.username == env.onvif_username->0,
        env.onvif_password is Some && cfg.onvif.password == env.onvif_password->0,
        cfg.onvif.profile_token == env.onvif_profile_token,
        env.onvif_url is Some && cfg.onvif.media_url@ == service_url(env.onvif_url->0@),
        env.onvif_url is Some && cfg.onvif.ptz_url@ == device_url(env.onvif_url->0@),
        env.onvif_auth_mode is None ==> cfg.onvif.auth_mode == OnvifAuthMode::Wsse,
{
}

} // verus!

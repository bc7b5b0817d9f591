//! Requests to the camera and its answers.

use vstd::prelude::*;
use vstd::string::StringExecFns;
use vstd::utf8::encode_utf8;
use crate::onvif::models::{
    MoveRequest, OnvifPreset, OnvifPresetsResponse, OnvifProfile, OnvifProfilesResponse,
    PresetRequest, StopRequest,
};
use crate::onvif::profiles::{listed, parse_presets_response, parse_profiles_response};
use crate::onvif::url::{
    device_url, rewrite_onvif_device_to_service, rewrite_onvif_service_to_device, service_url,
};
use crate::onvif::wsse::{add_wsse_header, is_secured, is_stamp_failure};
use crate::outside::{base64_text, str_view, text_view, to_base64, xml_nodes};
use crate::text::{
    has_suffix, is_space, law_middle_is_told, law_occurs_in_longer_text,
    law_suffix, law_trimmed_empty, lemma_longer_text_ends_alike, lemma_value_stands_between, occurs, occurs_at, trim, trimmed,
};

verus! {

/// Why a request failed: it was not acceptable, or the camera did not answer as it
/// should.
pub enum OnvifError {
    BadRequest(String),
    Upstream(String),
}

impl OnvifError {
    /// The HTTP status that clients are told.
    pub fn status_code(&self) -> (code: u16)
        ensures
            code == match self {
                OnvifError::BadRequest(_) => 400u16,
                OnvifError::Upstream(_) => 502u16,
            },
    {
        match self {
            OnvifError::BadRequest(_) => 400,
            OnvifError::Upstream(_) => 502,
        }
    }

    /// The message that clients are told.
    pub fn message(self) -> (text: String)
        ensures
            text == match self {
                OnvifError::BadRequest(msg) => msg,
                OnvifError::Upstream(msg) => msg,
            },
    {
        match self {
            OnvifError::BadRequest(msg) => msg,
            OnvifError::Upstream(msg) => msg,
        }
    }
}

/// How requests are authenticated: by a header of HTTP, or by one in the envelope.
#[derive(Clone, Copy, PartialEq, Eq, Structural, Debug)]
pub enum OnvifAuthMode {
    Basic,
    Wsse,
}

/// How the camera is reached.
#[derive(Clone)]
pub struct OnvifConfig {
    pub profile_token: Option<String>,
    pub auth_mode: OnvifAuthMode,
    pub username: String,
    pub password: String,
    pub media_url: String,
    pub ptz_url: String,
}

impl OnvifConfig {
    /// The configuration for a camera at `base_url`: profiles are asked of its media
    /// service, all else of its device service.
    pub fn from_base_url(
        base_url: String,
        username: String,
        password: String,
        profile_token: Option<String>,
        auth_mode: OnvifAuthMode,
    ) -> (cfg: OnvifConfig)
        ensures
            cfg.profile_token == profile_token,
            cfg.auth_mode == auth_mode,
            cfg.username == username,
            cfg.password == password,
            cfg.media_url@ == service_url(base_url@),
            cfg.ptz_url@ == device_url(base_url@),
    {
        OnvifConfig {
            profile_token,
            auth_mode,
            username,
            password,
            media_url: rewrite_onvif_device_to_service(base_url.as_str()),
            ptz_url: rewrite_onvif_service_to_device(base_url.as_str()),
        }
    }

    /// User name and password as basic authentication joins them.
    pub open spec fn credentials(self) -> Seq<char> {
        self.username@ + ":"@ + self.password@
    }

    /// The credentials are short enough to be encoded.
    pub open spec fn credentials_fit(self) -> bool {
        encode_utf8(self.credentials()).len() <= usize::MAX / 4
    }

    /// Joins user name and password.
    fn join_credentials(&self) -> (joined: String)
        ensures
            joined@ == self.credentials(),
    {
        let mut joined = self.username.clone();
        joined.append(":");
        joined.append(self.password.as_str());
        joined
    }

    /// Tells whether the credentials are short enough to be encoded.
    pub fn can_encode_credentials(&self) -> (fit: bool)
        ensures
            fit == self.credentials_fit(),
    {
        self.join_credentials().as_str().as_bytes().len() <= usize::MAX / 4
    }
}

/// A request that is to be posted: its address, its headers and its body.
pub struct SoapRequest {
    pub url: String,
    pub headers: Vec<(String, String)>,
    pub body: String,
}

/// What came of a request: it could not be made, or there was an answer with a
/// status, the status in words, and its text, if that could be read.
pub enum SoapReply {
    Failed(String),
    Answered { status: u16, status_line: String, text: Option<String> },
}

/// The names and values of some headers.
pub open spec fn headers_view(headers: Seq<(String, String)>) -> Seq<(Seq<char>, Seq<char>)> {
    headers.map_values(|header: (String, String)| (header.0@, header.1@))
}

/// The headers of every request.
pub open spec fn common_headers() -> Seq<(Seq<char>, Seq<char>)> {
    seq![
        ("Connection"@, "close"@),
        ("Accept-Encoding"@, "identity"@),
        ("Content-Type"@, "application/soap+xml; charset=utf-8"@),
    ]
}

/// The request carries the envelope to the address, authenticated as configured.
pub open spec fn carries(
    request: SoapRequest,
    cfg: OnvifConfig,
    envelope: Seq<char>,
    url: Seq<char>,
) -> bool {
    &&& request.url@ == url
    &&& cfg.auth_mode == OnvifAuthMode::Basic ==> {
        &&& headers_view(request.headers@) == common_headers().push(
            ("Authorization"@, "Basic "@ + base64_text(encode_utf8(cfg.credentials()))),
        )
        &&& request.body@ == envelope
    }
    &&& cfg.auth_mode == OnvifAuthMode::Wsse ==> {
        &&& headers_view(request.headers@) == common_headers()
        &&& exists|nanos: i128, nonce: Seq<u8>| #[trigger]
            is_secured(request.body@, envelope, cfg.username@, cfg.password@, nanos, nonce)
    }
}

/// The request could not be authenticated, since the present moment cannot be
/// written.
pub open spec fn is_unsigned(error: OnvifError, cfg: OnvifConfig) -> bool {
    &&& cfg.auth_mode == OnvifAuthMode::Wsse
    &&& error matches OnvifError::Upstream(reason) && exists|nanos: i128| #[trigger]
        is_stamp_failure(reason@, nanos)
}

/// Adds a header.
fn push_header(headers: &mut Vec<(String, String)>, name: &str, value: &str)
    ensures
        headers_view(final(headers)@) == headers_view(old(headers)@).push((name@, value@)),
{
    headers.push((name.to_owned(), value.to_owned()));
    assert(headers_view(headers@) =~= headers_view(old(headers)@).push((name@, value@)));
}

/// The envelope that asks for the profiles.
pub open spec fn profiles_envelope() -> Seq<char> {
    "<s:Envelope xmlns:s=\"http://www.w3.org/2003/05/soap-envelope\" xmlns:trt=\"http://www.onvif.org/ver10/media/wsdl\">\n  <s:Body>\n    <trt:GetProfiles/>\n  </s:Body>\n</s:Envelope>"@
}

/// How the envelope that asks for presets begins.
pub open spec fn presets_opening() -> Seq<char> {
    "<s:Envelope xmlns:s=\"http://www.w3.org/2003/05/soap-envelope\" xmlns:tptz=\"http://www.onvif.org/ver20/ptz/wsdl\">\n  <s:Body>\n    <tptz:GetPresets>\n      <tptz:ProfileToken>"@
}

/// How the envelope that makes the camera move begins.
pub open spec fn move_opening() -> Seq<char> {
    "<s:Envelope xmlns:s=\"http://www.w3.org/2003/05/soap-envelope\" xmlns:tptz=\"http://www.onvif.org/ver20/ptz/wsdl\" xmlns:tt=\"http://www.onvif.org/ver10/schema\">\n  <s:Body>\n    <tptz:ContinuousMove>\n      <tptz:ProfileToken>"@
}

/// How the envelope that makes the camera stop begins.
pub open spec fn stop_opening() -> Seq<char> {
    "<s:Envelope xmlns:s=\"http://www.w3.org/2003/05/soap-envelope\" xmlns:tptz=\"http://www.onvif.org/ver20/ptz/wsdl\">\n  <s:Body>\n    <tptz:Stop>\n      <tptz:ProfileToken>"@
}

/// How the envelope that makes the camera go to a preset begins.
pub open spec fn preset_opening() -> Seq<char> {
    "<s:Envelope xmlns:s=\"http://www.w3.org/2003/05/soap-envelope\" xmlns:tptz=\"http://www.onvif.org/ver20/ptz/wsdl\">\n  <s:Body>\n    <tptz:GotoPreset>\n      <tptz:ProfileToken>"@
}

/// The envelope that asks for the presets of a profile.
pub open spec fn presets_envelope(profile: Seq<char>) -> Seq<char> {
    presets_opening() + profile
        + "</tptz:ProfileToken>\n    </tptz:GetPresets>\n  </s:Body>\n</s:Envelope>"@
}

/// The zoom velocity that is sent: the one that was asked for, or zero.
pub open spec fn zoom_or_none(zoom: Option<Seq<char>>) -> Seq<char> {
    match zoom {
        Some(velocity) => velocity,
        None => "0"@,
    }
}

/// The envelope that makes the camera move.
pub open spec fn move_envelope(
    profile: Seq<char>,
    x: Seq<char>,
    y: Seq<char>,
    zoom: Seq<char>,
) -> Seq<char> {
    move_opening() + profile + "</tptz:ProfileToken>\n      <tptz:Velocity>\n        <tt:PanTilt x=\""@ + x
        + "\" y=\""@ + y + "\" />\n        <tt:Zoom x=\""@ + zoom
        + "\" />\n      </tptz:Velocity>\n    </tptz:ContinuousMove>\n  </s:Body>\n</s:Envelope>"@
}

/// The envelope that makes the camera stop.
pub open spec fn stop_envelope(profile: Seq<char>) -> Seq<char> {
    stop_opening() + profile
        + "</tptz:ProfileToken>\n      <tptz:PanTilt>true</tptz:PanTilt>\n      <tptz:Zoom>true</tptz:Zoom>\n    </tptz:Stop>\n  </s:Body>\n</s:Envelope>"@
}

/// The envelope that makes the camera go to a preset.
pub open spec fn preset_envelope(profile: Seq<char>, preset: Seq<char>) -> Seq<char> {
    preset_opening() + profile + "</tptz:ProfileToken>\n      <tptz:PresetToken>"@ + preset
        + "</tptz:PresetToken>\n    </tptz:GotoPreset>\n  </s:Body>\n</s:Envelope>"@
}

impl MoveRequest {
    /// The envelope that asks for this move of a profile.
    pub open spec fn envelope(self, profile: Seq<char>) -> Seq<char> {
        move_envelope(profile, self.x@, self.y@, zoom_or_none(text_view(self.zoom)))
    }
}

impl PresetRequest {
    /// The envelope that asks for this preset of a profile.
    pub open spec fn envelope(self, profile: Seq<char>) -> Seq<char> {
        preset_envelope(profile, self.preset_token@)
    }
}

/// The profile that a request is about: the one that it names, unless that is
/// blank, else the configured one.
pub open spec fn chosen_profile(
    configured: Option<Seq<char>>,
    named: Option<Seq<char>>,
) -> Option<Seq<char>> {
    match named {
        Some(token) if trimmed(token).len() > 0 => Some(token),
        _ => configured,
    }
}

/// The complaint about a request that is about no profile.
pub open spec fn is_profile_missing(error: OnvifError) -> bool {
    error matches OnvifError::BadRequest(message) && message@
        == "ONVIF_PROFILE_TOKEN is not set. Use /api/onvif/profiles first."@
}

/// What is read from a reply: its text, if the status tells success, else the
/// complaint.
pub open spec fn reply_text(reply: SoapReply) -> Result<Seq<char>, Seq<char>> {
    match reply {
        SoapReply::Failed(detail) => Err("ONVIF request failed: "@ + detail@),
        SoapReply::Answered { status, status_line, text } => {
            let body = match text {
                Some(text) => text@,
                None => "failed to read response body"@,
            };
            if 200 <= status < 300 {
                Ok(body)
            } else {
                Err("ONVIF error "@ + status_line@ + ": "@ + body)
            }
        },
    }
}

/// Reads a reply: its text, if the status tells success.
pub fn read_reply(reply: SoapReply) -> (outcome: Result<String, OnvifError>)
    ensures
        match reply_text(reply) {
            Ok(text) => outcome matches Ok(body) && body@ == text,
            Err(reason) => outcome matches Err(OnvifError::Upstream(message)) && message@ == reason,
        },
{
    match reply {
        SoapReply::Failed(detail) => {
            let mut message = "ONVIF request failed: ".to_owned();
            message.append(detail.as_str());
            Err(OnvifError::Upstream(message))
        },
        SoapReply::Answered { status, status_line, text } => {
            let body = match text {
                Some(text) => text,
                None => "failed to read response body".to_owned(),
            };
            if status >= 200 && status < 300 {
                Ok(body)
            } else {
                let mut message = "ONVIF error ".to_owned();
                message.append(status_line.as_str());
                message.append(": ");
                message.append(body.as_str());
                Err(OnvifError::Upstream(message))
            }
        },
    }
}

/// Confirms what was sent, if the reply tells success.
fn confirm(reply: SoapReply, done: &'static str) -> (outcome: Result<&'static str, OnvifError>)
    ensures
        match reply_text(reply) {
            Ok(_) => outcome == Ok::<&'static str, OnvifError>(done),
            Err(reason) => outcome matches Err(OnvifError::Upstream(message)) && message@ == reason,
        },
{
    match read_reply(reply) {
        Ok(_) => Ok(done),
        Err(error) => Err(error),
    }
}

/// The camera, as requests are made to it.
#[derive(Clone)]
pub struct OnvifService {
    pub cfg: OnvifConfig,
}

impl OnvifService {
    /// The camera that is reached as configured.
    pub fn new(cfg: OnvifConfig) -> (service: OnvifService)
        ensures
            service.cfg == cfg,
    {
        OnvifService { cfg }
    }

    /// The configured profile.
    pub fn configured_profile_token(&self) -> (token: Option<&str>)
        ensures
            str_view(token) == text_view(self.cfg.profile_token),
    {
        match &self.cfg.profile_token {
            Some(token) => Some(token.as_str()),
            None => None,
        }
    }

    /// The profile that a request is about.
    pub fn resolve_profile_token(&self, override_token: Option<&str>) -> (outcome: Result<
        String,
        OnvifError,
    >)
        ensures
            match chosen_profile(text_view(self.cfg.profile_token), str_view(override_token)) {
                Some(profile) => outcome matches Ok(token) && token@ == profile,
                None => outcome matches Err(error) && is_profile_missing(error),
            },
    {
        if let Some(token) = override_token {
            if !trim(token).as_str().is_empty() {
                return Ok(token.to_owned());
            }
        }
        match &self.cfg.profile_token {
            Some(token) => Ok(token.clone()),
            None => Err(
                OnvifError::BadRequest(
                    "ONVIF_PROFILE_TOKEN is not set. Use /api/onvif/profiles first.".to_owned(),
                ),
            ),
        }
    }

    /// Makes the request that carries an envelope to an address.
    pub fn prepare(&self, envelope: &str, url: &str) -> (outcome: Result<SoapRequest, OnvifError>)
        requires
            self.cfg.auth_mode == OnvifAuthMode::Basic ==> self.cfg.credentials_fit(),
        ensures
            self.cfg.auth_mode == OnvifAuthMode::Basic ==> outcome is Ok,
            self.cfg.auth_mode == OnvifAuthMode::Wsse && !occurs(envelope@, "<s:Body>"@) ==> (
            outcome matches Err(OnvifError::Upstream(reason)) && reason@
                == "soap envelope does not contain <s:Body>"@),
            outcome matches Ok(request) ==> carries(request, self.cfg, envelope@, url@),
            occurs(envelope@, "<s:Body>"@) && outcome is Err ==> is_unsigned(
                outcome->Err_0,
                self.cfg,
            ),
    {
        let mut headers: Vec<(String, String)> = Vec::new();
        assert(headers_view(headers@) =~= seq![]);
        push_header(&mut headers, "Connection", "close");
        push_header(&mut headers, "Accept-Encoding", "identity");
        push_header(&mut headers, "Content-Type", "application/soap+xml; charset=utf-8");
        assert(headers_view(headers@) =~= common_headers());
        match self.cfg.auth_mode {
            OnvifAuthMode::Basic => {
                let credentials = self.cfg.join_credentials();
                let mut value = "Basic ".to_owned();
                value.append(to_base64(credentials.as_str().as_bytes()).as_str());
                push_header(&mut headers, "Authorization", value.as_str());
                Ok(SoapRequest { url: url.to_owned(), headers, body: envelope.to_owned() })
            },
            OnvifAuthMode::Wsse => {
                match add_wsse_header(
                    envelope,
                    self.cfg.username.as_str(),
                    self.cfg.password.as_str(),
                ) {
                    Ok(body) => {
                        let request = SoapRequest { url: url.to_owned(), headers, body };
                        proof {
                            let (nanos, nonce) = choose|nanos: i128, nonce: Seq<u8>| #[trigger]
                                is_secured(
                                    body@,
                                    envelope@,
                                    self.cfg.username@,
                                    self.cfg.password@,
                                    nanos,
                                    nonce,
                                );
                            assert(is_secured(
                                request.body@,
                                envelope@,
                                self.cfg.username@,
                                self.cfg.password@,
                                nanos,
                                nonce,
                            ));
                            assert(carries(request, self.cfg, envelope@, url@));
                        }
                        Ok(request)
                    },
                    Err(reason) => {
                        let error = OnvifError::Upstream(reason);
                        proof {
                            if occurs(envelope@, "<s:Body>"@) {
                                let nanos = choose|nanos: i128| #[trigger]
                                    is_stamp_failure(reason@, nanos);
                                assert(is_stamp_failure(error->Upstream_0@, nanos));
                                assert(is_unsigned(error, self.cfg));
                            }
                        }
                        Err(error)
                    },
                }
            },
        }
    }

    /// The request for the profiles.
    pub fn profiles(&self) -> (outcome: Result<SoapRequest, OnvifError>)
        requires
            self.cfg.auth_mode == OnvifAuthMode::Basic ==> self.cfg.credentials_fit(),
        ensures
            self.cfg.auth_mode == OnvifAuthMode::Basic ==> outcome is Ok,
            match outcome {
                Ok(request) => carries(
                    request,
                    self.cfg,
                    profiles_envelope(),
                    self.cfg.media_url@,
                ),
                Err(error) => is_unsigned(error, self.cfg),
            },
    {
        proof {
            law_envelopes_have_bodies(seq![], seq![], seq![], seq![], seq![]);
        }
        self.prepare(
            "<s:Envelope xmlns:s=\"http://www.w3.org/2003/05/soap-envelope\" xmlns:trt=\"http://www.onvif.org/ver10/media/wsdl\">\n  <s:Body>\n    <trt:GetProfiles/>\n  </s:Body>\n</s:Envelope>",
            self.cfg.media_url.as_str(),
        )
    }

    /// Reads the reply to the request for the profiles.
    pub fn profiles_answered(&self, reply: SoapReply) -> (outcome: Result<
        OnvifProfilesResponse,
        OnvifError,
    >)
        ensures
            match reply_text(reply) {
                Ok(xml) => match xml_nodes(xml, "token"@) {
                    Ok(nodes) => outcome matches Ok(response) && {
                        &&& response.media_url@ == self.cfg.media_url@
                        &&& text_view(response.configured_profile_token) == text_view(
                            self.cfg.profile_token,
                        )
                        &&& response.profiles@.map_values(|p: OnvifProfile| p@) == listed(
                            nodes,
                            "Profiles"@,
                        )
                    },
                    Err(reason) => outcome matches Err(OnvifError::Upstream(message)) && message@
                        == "failed to parse ONVIF profile XML: "@ + reason,
                },
                Err(reason) => outcome matches Err(OnvifError::Upstream(message)) && message@
                    == reason,
            },
    {
        let text = match read_reply(reply) {
            Ok(text) => text,
            Err(error) => return Err(error),
        };
        let profiles = match parse_profiles_response(text.as_str()) {
            Ok(profiles) => profiles,
            Err(error) => return Err(error),
        };
        let configured_profile_token = match &self.cfg.profile_token {
            Some(token) => Some(token.clone()),
            None => None,
        };
        Ok(
            OnvifProfilesResponse {
                media_url: self.cfg.media_url.clone(),
                configured_profile_token,
                profiles,
            },
        )
    }

    /// The request for the presets, and the profile that it is about.
    pub fn presets(&self, override_profile_token: Option<&str>) -> (outcome: Result<
        (String, SoapRequest),
        OnvifError,
    >)
        requires
            self.cfg.auth_mode == OnvifAuthMode::Basic ==> self.cfg.credentials_fit(),
        ensures
            match chosen_profile(
                text_view(self.cfg.profile_token),
                str_view(override_profile_token),
            ) {
                None => outcome matches Err(error) && is_profile_missing(error),
                Some(profile) => {
                    &&& self.cfg.auth_mode == OnvifAuthMode::Basic ==> outcome is Ok
                    &&& match outcome {
                        Ok((token, request)) => {
                            &&& token@ == profile
                            &&& carries(
                                request,
                                self.cfg,
                                presets_envelope(profile),
                                self.cfg.ptz_url@,
                            )
                        },
                        Err(error) => is_unsigned(error, self.cfg),
                    }
                },
            },
    {
        let profile = match self.resolve_profile_token(override_profile_token) {
            Ok(profile) => profile,
            Err(error) => return Err(error),
        };
        let mut soap =
            "<s:Envelope xmlns:s=\"http://www.w3.org/2003/05/soap-envelope\" xmlns:tptz=\"http://www.onvif.org/ver20/ptz/wsdl\">\n  <s:Body>\n    <tptz:GetPresets>\n      <tptz:ProfileToken>".to_owned();
        soap.append(profile.as_str());
        soap.append("</tptz:ProfileToken>\n    </tptz:GetPresets>\n  </s:Body>\n</s:Envelope>");
        proof {
            law_envelopes_have_bodies(profile@, seq![], seq![], seq![], seq![]);
        }
        match self.prepare(soap.as_str(), self.cfg.ptz_url.as_str()) {
            Ok(request) => Ok((profile, request)),
            Err(error) => Err(error),
        }
    }

    /// Reads the reply to the request for the presets of a profile.
    pub fn presets_answered(&self, profile: String, reply: SoapReply) -> (outcome: Result<
        OnvifPresetsResponse,
        OnvifError,
    >)
        ensures
            match reply_text(reply) {
                Ok(xml) => match xml_nodes(xml, "token"@) {
                    Ok(nodes) => outcome matches Ok(response) && {
                        &&& response.ptz_url@ == self.cfg.ptz_url@
                        &&& response.profile_token == profile
                        &&& response.presets@.map_values(|p: OnvifPreset| p@) == listed(
                            nodes,
                            "Preset"@,
                        )
                    },
                    Err(reason) => outcome matches Err(OnvifError::Upstream(message)) && message@
                        == "failed to parse ONVIF presets XML: "@ + reason,
                },
                Err(reason) => outcome matches Err(OnvifError::Upstream(message)) && message@
                    == reason,
            },
    {
        let text = match read_reply(reply) {
            Ok(text) => text,
            Err(error) => return Err(error),
        };
        let presets = match parse_presets_response(text.as_str()) {
            Ok(presets) => presets,
            Err(error) => return Err(error),
        };
        Ok(
            OnvifPresetsResponse {
                ptz_url: self.cfg.ptz_url.clone(),
                profile_token: profile,
                presets,
            },
        )
    }

    /// The request that makes the camera move; without a zoom velocity, with none.
    pub fn move_camera(&self, payload: MoveRequest) -> (outcome: Result<SoapRequest, OnvifError>)
        requires
            self.cfg.auth_mode == OnvifAuthMode::Basic ==> self.cfg.credentials_fit(),
        ensures
            match chosen_profile(
                text_view(self.cfg.profile_token),
                text_view(payload.profile_token),
            ) {
                None => outcome matches Err(error) && is_profile_missing(error),
                Some(profile) => {
                    &&& self.cfg.auth_mode == OnvifAuthMode::Basic ==> outcome is Ok
                    &&& match outcome {
                        Ok(request) => carries(
                            request,
                            self.cfg,
                            payload.envelope(profile),
                            self.cfg.ptz_url@,
                        ),
                        Err(error) => is_unsigned(error, self.cfg),
                    }
                },
            },
    {
        let named = match &payload.profile_token {
            Some(token) => Some(token.as_str()),
            None => None,
        };
        let profile = match self.resolve_profile_token(named) {
            Ok(profile) => profile,
            Err(error) => return Err(error),
        };
        let zoom = match payload.zoom {
            Some(zoom) => zoom,
            None => "0".to_owned(),
        };
        let mut soap =
            "<s:Envelope xmlns:s=\"http://www.w3.org/2003/05/soap-envelope\" xmlns:tptz=\"http://www.onvif.org/ver20/ptz/wsdl\" xmlns:tt=\"http://www.onvif.org/ver10/schema\">\n  <s:Body>\n    <tptz:ContinuousMove>\n      <tptz:ProfileToken>".to_owned();
        soap.append(profile.as_str());
        soap.append(
            "</tptz:ProfileToken>\n      <tptz:Velocity>\n        <tt:PanTilt x=\"",
        );
        soap.append(payload.x.as_str());
        soap.append("\" y=\"");
        soap.append(payload.y.as_str());
        soap.append("\" />\n        <tt:Zoom x=\"");
        soap.append(zoom.as_str());
        soap.append(
            "\" />\n      </tptz:Velocity>\n    </tptz:ContinuousMove>\n  </s:Body>\n</s:Envelope>",
        );
        proof {
            law_envelopes_have_bodies(profile@, payload.x@, payload.y@, zoom@, seq![]);
        }
        self.prepare(soap.as_str(), self.cfg.ptz_url.as_str())
    }

    /// Reads the reply to a request to move.
    pub fn move_answered(&self, reply: SoapReply) -> (outcome: Result<&'static str, OnvifError>)
        ensures
            match reply_text(reply) {
                Ok(_) => outcome == Ok::<&'static str, OnvifError>("move sent"),
                Err(reason) => outcome matches Err(OnvifError::Upstream(message)) && message@
                    == reason,
            },
    {
        confirm(reply, "move sent")
    }

    /// The request that makes the camera stop.
    pub fn stop(&self, payload: StopRequest) -> (outcome: Result<SoapRequest, OnvifError>)
        requires
            self.cfg.auth_mode == OnvifAuthMode::Basic ==> self.cfg.credentials_fit(),
        ensures
            match chosen_profile(
                text_view(self.cfg.profile_token),
                text_view(payload.profile_token),
            ) {
                None => outcome matches Err(error) && is_profile_missing(error),
                Some(profile) => {
                    &&& self.cfg.auth_mode == OnvifAuthMode::Basic ==> outcome is Ok
                    &&& match outcome {
                        Ok(request) => carries(
                            request,
                            self.cfg,
                            stop_envelope(profile),
                            self.cfg.ptz_url@,
                        ),
                        Err(error) => is_unsigned(error, self.cfg),
                    }
                },
            },
    {
        let named = match &payload.profile_token {
            Some(token) => Some(token.as_str()),
            None => None,
        };
        let profile = match self.resolve_profile_token(named) {
            Ok(profile) => profile,
            Err(error) => return Err(error),
        };
        let mut soap =
            "<s:Envelope xmlns:s=\"http://www.w3.org/2003/05/soap-envelope\" xmlns:tptz=\"http://www.onvif.org/ver20/ptz/wsdl\">\n  <s:Body>\n    <tptz:Stop>\n      <tptz:ProfileToken>".to_owned();
        soap.append(profile.as_str());
        soap.append(
            "</tptz:ProfileToken>\n      <tptz:PanTilt>true</tptz:PanTilt>\n      <tptz:Zoom>true</tptz:Zoom>\n    </tptz:Stop>\n  </s:Body>\n</s:Envelope>",
        );
        proof {
            law_envelopes_have_bodies(profile@, seq![], seq![], seq![], seq![]);
        }
        self.prepare(soap.as_str(), self.cfg.ptz_url.as_str())
    }

    /// Reads the reply to a request to stop.
    pub fn stop_answered(&self, reply: SoapReply) -> (outcome: Result<&'static str, OnvifError>)
        ensures
            match reply_text(reply) {
                Ok(_) => outcome == Ok::<&'static str, OnvifError>("stop sent"),
                Err(reason) => outcome matches Err(OnvifError::Upstream(message)) && message@
                    == reason,
            },
    {
        confirm(reply, "stop sent")
    }

    /// The request that makes the camera go to a preset.
    pub fn goto_preset(&self, payload: PresetRequest) -> (outcome: Result<SoapRequest, OnvifError>)
        requires
            self.cfg.auth_mode == OnvifAuthMode::Basic ==> self.cfg.credentials_fit(),
        ensures
            match chosen_profile(
                text_view(self.cfg.profile_token),
                text_view(payload.profile_token),
            ) {
                None => outcome matches Err(error) && is_profile_missing(error),
                Some(profile) => {
                    &&& self.cfg.auth_mode == OnvifAuthMode::Basic ==> outcome is Ok
                    &&& match outcome {
                        Ok(request) => carries(
                            request,
                            self.cfg,
                            payload.envelope(profile),
                            self.cfg.ptz_url@,
                        ),
                        Err(error) => is_unsigned(error, self.cfg),
                    }
                },
            },
    {
        let named = match &payload.profile_token {
            Some(token) => Some(token.as_str()),
            None => None,
        };
        let profile = match self.resolve_profile_token(named) {
            Ok(profile) => profile,
            Err(error) => return Err(error),
        };
        let mut soap =
            "<s:Envelope xmlns:s=\"http://www.w3.org/2003/05/soap-envelope\" xmlns:tptz=\"http://www.onvif.org/ver20/ptz/wsdl\">\n  <s:Body>\n    <tptz:GotoPreset>\n      <tptz:ProfileToken>".to_owned();
        soap.append(profile.as_str());
        soap.append("</tptz:ProfileToken>\n      <tptz:PresetToken>");
        soap.append(payload.preset_token.as_str());
        soap.append(
            "</tptz:PresetToken>\n    </tptz:GotoPreset>\n  </s:Body>\n</s:Envelope>",
        );
        proof {
            law_envelopes_have_bodies(profile@, seq![], seq![], seq![], payload.preset_token@);
        }
        self.prepare(soap.as_str(), self.cfg.ptz_url.as_str())
    }

    /// Reads the reply to a request to go to a preset.
    pub fn goto_preset_answered(&self, reply: SoapReply) -> (outcome: Result<
        &'static str,
        OnvifError,
    >)
        ensures
            match reply_text(reply) {
                Ok(_) => outcome == Ok::<&'static str, OnvifError>("goto preset sent"),
                Err(reason) => outcome matches Err(OnvifError::Upstream(message)) && message@
                    == reason,
            },
    {
        confirm(reply, "goto preset sent")
    }
}

/// How the fixed parts of the envelopes begin and end.
spec fn envelopes_are_cut() -> bool {
    &&& has_suffix(presets_opening(), "<tptz:ProfileToken>"@)
    &&& has_suffix(move_opening(), "<tptz:ProfileToken>"@)
    &&& has_suffix(stop_opening(), "<tptz:ProfileToken>"@)
    &&& has_suffix(preset_opening(), "<tptz:ProfileToken>"@)
    &&& "</tptz:ProfileToken>"@.is_prefix_of("</tptz:ProfileToken>\n    </tptz:GetPresets>\n  </s:Body>\n</s:Envelope>"@)
    &&& "</tptz:ProfileToken>"@.is_prefix_of("</tptz:ProfileToken>\n      <tptz:PanTilt>true</tptz:PanTilt>\n      <tptz:Zoom>true</tptz:Zoom>\n    </tptz:Stop>\n  </s:Body>\n</s:Envelope>"@)
    &&& "</tptz:ProfileToken>"@.is_prefix_of("</tptz:ProfileToken>\n      <tptz:Velocity>\n        <tt:PanTilt x=\""@)
    &&& "</tptz:ProfileToken>"@.is_prefix_of("</tptz:ProfileToken>\n      <tptz:PresetToken>"@)
    &&& has_suffix("</tptz:ProfileToken>\n      <tptz:Velocity>\n        <tt:PanTilt x=\""@, "<tt:PanTilt x=\""@)
    &&& "\" />"@.is_prefix_of("\" />\n        <tt:Zoom x=\""@)
    &&& has_suffix("\" />\n        <tt:Zoom x=\""@, "<tt:Zoom x=\""@)
    &&& "\" />"@.is_prefix_of("\" />\n      </tptz:Velocity>\n    </tptz:ContinuousMove>\n  </s:Body>\n</s:Envelope>"@)
    &&& has_suffix("</tptz:ProfileToken>\n      <tptz:PresetToken>"@, "<tptz:PresetToken>"@)
    &&& "</tptz:PresetToken>"@.is_prefix_of("</tptz:PresetToken>\n    </tptz:GotoPreset>\n  </s:Body>\n</s:Envelope>"@)
}

proof fn lemma_openings_are_cut()
    ensures
        has_suffix(presets_opening(), "<tptz:ProfileToken>"@),
        has_suffix(move_opening(), "<tptz:ProfileToken>"@),
        has_suffix(stop_opening(), "<tptz:ProfileToken>"@),
        has_suffix(preset_opening(), "<tptz:ProfileToken>"@),
{
    reveal_strlit("<tptz:ProfileToken>");
    let tag = "<tptz:ProfileToken>"@;
    reveal_strlit("<s:Envelope xmlns:s=\"http://www.w3.org/2003/05/soap-envelope\" xmlns:tptz=\"http://www.onvif.org/ver20/ptz/wsdl\">\n  <s:Body>\n    <tptz:GetPresets>\n      <tptz:ProfileToken>");
    assert(presets_opening().subrange(presets_opening().len() - tag.len(), presets_opening().len() as int) =~= tag);
    reveal_strlit("<s:Envelope xmlns:s=\"http://www.w3.org/2003/05/soap-envelope\" xmlns:tptz=\"http://www.onvif.org/ver20/ptz/wsdl\" xmlns:tt=\"http://www.onvif.org/ver10/schema\">\n  <s:Body>\n    <tptz:ContinuousMove>\n      <tptz:ProfileToken>");
    assert(move_opening().subrange(move_opening().len() - tag.len(), move_opening().len() as int) =~= tag);
    reveal_strlit("<s:Envelope xmlns:s=\"http://www.w3.org/2003/05/soap-envelope\" xmlns:tptz=\"http://www.onvif.org/ver20/ptz/wsdl\">\n  <s:Body>\n    <tptz:Stop>\n      <tptz:ProfileToken>");
    assert(stop_opening().subrange(stop_opening().len() - tag.len(), stop_opening().len() as int) =~= tag);
    reveal_strlit("<s:Envelope xmlns:s=\"http://www.w3.org/2003/05/soap-envelope\" xmlns:tptz=\"http://www.onvif.org/ver20/ptz/wsdl\">\n  <s:Body>\n    <tptz:GotoPreset>\n      <tptz:ProfileToken>");
    assert(preset_opening().subrange(preset_opening().len() - tag.len(), preset_opening().len() as int) =~= tag);
}

proof fn lemma_envelopes_are_cut()
    ensures
        envelopes_are_cut(),
{
    lemma_openings_are_cut();
    reveal_strlit("</tptz:ProfileToken>");
    reveal_strlit("</tptz:ProfileToken>\n    </tptz:GetPresets>\n  </s:Body>\n</s:Envelope>");
    reveal_strlit("</tptz:ProfileToken>\n      <tptz:PanTilt>true</tptz:PanTilt>\n      <tptz:Zoom>true</tptz:Zoom>\n    </tptz:Stop>\n  </s:Body>\n</s:Envelope>");
    reveal_strlit("</tptz:ProfileToken>\n      <tptz:Velocity>\n        <tt:PanTilt x=\"");
    reveal_strlit("</tptz:ProfileToken>\n      <tptz:PresetToken>");
    reveal_strlit("<tt:PanTilt x=\"");
    reveal_strlit("\" />");
    reveal_strlit("\" />\n        <tt:Zoom x=\"");
    reveal_strlit("<tt:Zoom x=\"");
    reveal_strlit("\" />\n      </tptz:Velocity>\n    </tptz:ContinuousMove>\n  </s:Body>\n</s:Envelope>");
    reveal_strlit("<tptz:PresetToken>");
    reveal_strlit("</tptz:PresetToken>");
    reveal_strlit("</tptz:PresetToken>\n    </tptz:GotoPreset>\n  </s:Body>\n</s:Envelope>");
    assert("</tptz:ProfileToken>\n      <tptz:Velocity>\n        <tt:PanTilt x=\""@.subrange("</tptz:ProfileToken>\n      <tptz:Velocity>\n        <tt:PanTilt x=\""@.len() - "<tt:PanTilt x=\""@.len(), "</tptz:ProfileToken>\n      <tptz:Velocity>\n        <tt:PanTilt x=\""@.len() as int) =~= "<tt:PanTilt x=\""@);
    assert("\" />\n        <tt:Zoom x=\""@.subrange("\" />\n        <tt:Zoom x=\""@.len() - "<tt:Zoom x=\""@.len(), "\" />\n        <tt:Zoom x=\""@.len() as int) =~= "<tt:Zoom x=\""@);
    assert("</tptz:ProfileToken>\n      <tptz:PresetToken>"@.subrange("</tptz:ProfileToken>\n      <tptz:PresetToken>"@.len() - "<tptz:PresetToken>"@.len(), "</tptz:ProfileToken>\n      <tptz:PresetToken>"@.len() as int) =~= "<tptz:PresetToken>"@);
    assert("</tptz:ProfileToken>"@ =~= "</tptz:ProfileToken>\n    </tptz:GetPresets>\n  </s:Body>\n</s:Envelope>"@.take("</tptz:ProfileToken>"@.len() as int));
    assert("</tptz:ProfileToken>"@ =~= "</tptz:ProfileToken>\n      <tptz:PanTilt>true</tptz:PanTilt>\n      <tptz:Zoom>true</tptz:Zoom>\n    </tptz:Stop>\n  </s:Body>\n</s:Envelope>"@.take("</tptz:ProfileToken>"@.len() as int));
    assert("</tptz:ProfileToken>"@ =~= "</tptz:ProfileToken>\n      <tptz:Velocity>\n        <tt:PanTilt x=\""@.take("</tptz:ProfileToken>"@.len() as int));
    assert("</tptz:ProfileToken>"@ =~= "</tptz:ProfileToken>\n      <tptz:PresetToken>"@.take("</tptz:ProfileToken>"@.len() as int));
    assert("\" />"@ =~= "\" />\n        <tt:Zoom x=\""@.take("\" />"@.len() as int));
    assert("\" />"@ =~= "\" />\n      </tptz:Velocity>\n    </tptz:ContinuousMove>\n  </s:Body>\n</s:Envelope>"@.take("\" />"@.len() as int));
    assert("</tptz:PresetToken>"@ =~= "</tptz:PresetToken>\n    </tptz:GotoPreset>\n  </s:Body>\n</s:Envelope>"@.take("</tptz:PresetToken>"@.len() as int));
}

/// Every envelope that is about a profile names it literally, the one for a preset names the
/// preset literally too, and envelopes that name different ones differ.
pub proof fn law_envelopes_name_their_tokens(
    profile: Seq<char>,
    preset: Seq<char>,
    other: Seq<char>,
)
    ensures
        ({
            let named = "<tptz:ProfileToken>"@ + profile + "</tptz:ProfileToken>"@;
            &&& occurs(presets_envelope(profile), named)
            &&& occurs(stop_envelope(profile), named)
            &&& occurs(preset_envelope(profile, preset), named)
            &&& occurs(
                preset_envelope(profile, preset),
                "<tptz:PresetToken>"@ + preset + "</tptz:PresetToken>"@,
            )
        }),
        presets_envelope(other) == presets_envelope(profile) ==> other == profile,
        stop_envelope(other) == stop_envelope(profile) ==> other == profile,
        preset_envelope(other, preset) == preset_envelope(profile, preset) ==> other == profile,
        preset_envelope(profile, other) == preset_envelope(profile, preset) ==> other == preset,
{
    lemma_envelopes_are_cut();
    let start = "<tptz:ProfileToken>"@;
    let end = "</tptz:ProfileToken>"@;
    let listing = "</tptz:ProfileToken>\n    </tptz:GetPresets>\n  </s:Body>\n</s:Envelope>"@;
    let stopping = "</tptz:ProfileToken>\n      <tptz:PanTilt>true</tptz:PanTilt>\n      <tptz:Zoom>true</tptz:Zoom>\n    </tptz:Stop>\n  </s:Body>\n</s:Envelope>"@;
    let between = "</tptz:ProfileToken>\n      <tptz:PresetToken>"@;
    let closing = "</tptz:PresetToken>\n    </tptz:GotoPreset>\n  </s:Body>\n</s:Envelope>"@;
    lemma_value_stands_between(presets_opening(), start, profile, end, listing);
    lemma_value_stands_between(stop_opening(), start, profile, end, stopping);
    let rest = between + preset + closing;
    assert(preset_envelope(profile, preset) =~= preset_opening() + profile + rest);
    assert(end.is_prefix_of(rest)) by {
        assert(end =~= rest.take(end.len() as int));
    }
    lemma_value_stands_between(preset_opening(), start, profile, end, rest);
    let ahead = preset_opening() + profile + between;
    lemma_longer_text_ends_alike(
        preset_opening() + profile,
        between,
        "<tptz:PresetToken>"@,
    );
    lemma_value_stands_between(
        ahead,
        "<tptz:PresetToken>"@,
        preset,
        "</tptz:PresetToken>"@,
        closing,
    );
    if presets_envelope(other) == presets_envelope(profile) {
        law_middle_is_told(presets_opening(), other, profile, listing);
    }
    if stop_envelope(other) == stop_envelope(profile) {
        law_middle_is_told(stop_opening(), other, profile, stopping);
    }
    if preset_envelope(other, preset) == preset_envelope(profile, preset) {
        assert(preset_envelope(other, preset) =~= preset_opening() + other + rest);
        law_middle_is_told(preset_opening(), other, profile, rest);
    }
    if preset_envelope(profile, other) == preset_envelope(profile, preset) {
        law_middle_is_told(ahead, other, preset, closing);
    }
}

/// The envelope of a move carries the profile and each of the velocities that were asked for
/// literally and in its own place, whatever their texts are.
pub proof fn law_move_carries_its_velocities(
    profile: Seq<char>,
    x: Seq<char>,
    y: Seq<char>,
    zoom: Seq<char>,
)
    ensures
        ({
            let envelope = move_envelope(profile, x, y, zoom);
            &&& occurs(envelope, "<tptz:ProfileToken>"@ + profile + "</tptz:ProfileToken>"@)
            &&& occurs(envelope, "<tt:PanTilt x=\""@ + (x + "\" y=\""@ + y) + "\" />"@)
            &&& occurs(envelope, "<tt:Zoom x=\""@ + zoom + "\" />"@)
        }),
{
    lemma_envelopes_are_cut();
    let envelope = move_envelope(profile, x, y, zoom);
    let second = "</tptz:ProfileToken>\n      <tptz:Velocity>\n        <tt:PanTilt x=\""@;
    let fourth = "\" />\n        <tt:Zoom x=\""@;
    let last = "\" />\n      </tptz:Velocity>\n    </tptz:ContinuousMove>\n  </s:Body>\n</s:Envelope>"@;
    let token_end = "</tptz:ProfileToken>"@;
    let value_end = "\" />"@;
    let rest = second + x + "\" y=\""@ + y + fourth + zoom + last;
    assert(envelope =~= move_opening() + profile + rest);
    assert(token_end =~= rest.take(token_end.len() as int));
    lemma_value_stands_between(move_opening(), "<tptz:ProfileToken>"@, profile, token_end, rest);
    let front = move_opening() + profile;
    let both = x + "\" y=\""@ + y;
    let tail = fourth + zoom + last;
    lemma_longer_text_ends_alike(front, second, "<tt:PanTilt x=\""@);
    assert(envelope =~= (front + second) + both + tail);
    assert(value_end =~= tail.take(value_end.len() as int));
    lemma_value_stands_between(front + second, "<tt:PanTilt x=\""@, both, value_end, tail);
    let ahead = front + second + both;
    lemma_longer_text_ends_alike(ahead, fourth, "<tt:Zoom x=\""@);
    assert(envelope =~= (ahead + fourth) + zoom + last);
    lemma_value_stands_between(ahead + fourth, "<tt:Zoom x=\""@, zoom, value_end, last);
}

/// What is asked for is what is sent: the envelope of a request to move carries the pan, tilt and
/// zoom velocities of the request, with a zoom of zero only where none was asked for, and that of a
/// request for a preset carries the preset; both are about the profile that was chosen.
pub proof fn law_request_is_sent_as_asked(
    moving: MoveRequest,
    going: PresetRequest,
    profile: Seq<char>,
)
    ensures
        ({
            let move_text = moving.envelope(profile);
            let preset_text = going.envelope(profile);
            let about = "<tptz:ProfileToken>"@ + profile + "</tptz:ProfileToken>"@;
            &&& occurs(move_text, about) && occurs(preset_text, about)
            &&& occurs(move_text, "<tt:PanTilt x=\""@ + (moving.x@ + "\" y=\""@ + moving.y@) + "\" />"@)
            &&& moving.zoom is Some ==> occurs(move_text, "<tt:Zoom x=\""@ + moving.zoom->0@ + "\" />"@)
            &&& moving.zoom is None ==> occurs(move_text, "<tt:Zoom x=\""@ + seq!['0'] + "\" />"@)
            &&& occurs(preset_text, "<tptz:PresetToken>"@ + going.preset_token@ + "</tptz:PresetToken>"@)
        }),
{
    let zoom = zoom_or_none(text_view(moving.zoom));
    law_zoom_is_sent(text_view(moving.zoom));
    law_move_carries_its_velocities(profile, moving.x@, moving.y@, zoom);
    law_envelopes_name_their_tokens(profile, going.preset_token@, profile);
}

/// Moves that differ in the profile or in one of the velocities have different envelopes.
pub proof fn law_different_moves_differ(
    profile: Seq<char>,
    x: Seq<char>,
    y: Seq<char>,
    zoom: Seq<char>,
    other: Seq<char>,
)
    ensures
        move_envelope(other, x, y, zoom) == move_envelope(profile, x, y, zoom) ==> other == profile,
        move_envelope(profile, other, y, zoom) == move_envelope(profile, x, y, zoom) ==> other == x,
        move_envelope(profile, x, other, zoom) == move_envelope(profile, x, y, zoom) ==> other == y,
        move_envelope(profile, x, y, other) == move_envelope(profile, x, y, zoom) ==> other == zoom,
{
    let second = "</tptz:ProfileToken>\n      <tptz:Velocity>\n        <tt:PanTilt x=\""@;
    let third = "\" y=\""@;
    let fourth = "\" />\n        <tt:Zoom x=\""@;
    let last = "\" />\n      </tptz:Velocity>\n    </tptz:ContinuousMove>\n  </s:Body>\n</s:Envelope>"@;
    let envelope = move_envelope(profile, x, y, zoom);
    if move_envelope(other, x, y, zoom) == envelope {
        let rest = second + x + third + y + fourth + zoom + last;
        assert(envelope =~= move_opening() + profile + rest);
        assert(move_envelope(other, x, y, zoom) =~= move_opening() + other + rest);
        law_middle_is_told(move_opening(), other, profile, rest);
    }
    if move_envelope(profile, other, y, zoom) == envelope {
        let front = move_opening() + profile + second;
        let rest = third + y + fourth + zoom + last;
        assert(envelope =~= front + x + rest);
        assert(move_envelope(profile, other, y, zoom) =~= front + other + rest);
        law_middle_is_told(front, other, x, rest);
    }
    if move_envelope(profile, x, other, zoom) == envelope {
        let front = move_opening() + profile + second + x + third;
        let rest = fourth + zoom + last;
        assert(envelope =~= front + y + rest);
        assert(move_envelope(profile, x, other, zoom) =~= front + other + rest);
        law_middle_is_told(front, other, y, rest);
    }
    if move_envelope(profile, x, y, other) == envelope {
        let front = move_opening() + profile + second + x + third + y + fourth;
        law_middle_is_told(front, other, zoom, last);
    }
}

/// The zoom velocity that was asked for is sent; only where none was asked for, zero is.
pub proof fn law_zoom_is_sent(zoom: Option<Seq<char>>)
    ensures
        zoom is Some ==> zoom_or_none(zoom) == zoom->0,
        zoom is None ==> zoom_or_none(zoom) == seq!['0'],
{
    reveal_strlit("0");
    assert("0"@ =~= seq!['0']);
}

/// A request is about the profile that it names, as it is written, unless the name is
/// missing or holds white space only; then it is about the configured one, if there is one.
pub proof fn law_named_profile_wins(configured: Option<Seq<char>>, named: Option<Seq<char>>)
    ensures
        ({
            let blank = named is None || forall|i: int|
                0 <= i < named->0.len() ==> is_space(#[trigger] named->0[i]);
            &&& !blank ==> chosen_profile(configured, named) == named
            &&& blank ==> chosen_profile(configured, named) == configured
        }),
{
    if named is Some {
        law_trimmed_empty(named->0);
    }
}

/// The text of a reply is taken exactly if the camera answered with a status from 200 to 299,
/// and then as it is. Otherwise the complaint says why: it ends with the text of the reply, and
/// shows the status, or with the reason why there was no answer.
pub proof fn law_reply_is_read_by_its_status(reply: SoapReply)
    ensures
        ({
            let outcome = reply_text(reply);
            &&& reply matches SoapReply::Failed(detail) ==> outcome is Err && has_suffix(
                outcome->Err_0,
                detail@,
            ) && "ONVIF request failed: "@.is_prefix_of(outcome->Err_0)
            &&& reply matches SoapReply::Answered { status, status_line, text } ==> {
                let body = if text is Some {
                    text->0@
                } else {
                    "failed to read response body"@
                };
                &&& outcome is Ok <==> 200 <= status && status <= 299
                &&& outcome is Ok ==> outcome->Ok_0 == body
                &&& outcome is Err ==> has_suffix(outcome->Err_0, ": "@ + body) && (
                "ONVIF error "@ + status_line@).is_prefix_of(outcome->Err_0)
            }
        }),
{
    match reply {
        SoapReply::Failed(detail) => {
            law_suffix(detail@, "ONVIF request failed: "@, detail@);
        },
        SoapReply::Answered { status, status_line, text } => {
            let body = if text is Some {
                text->0@
            } else {
                "failed to read response body"@
            };
            let front = "ONVIF error "@ + status_line@;
            assert(front + ": "@ + body =~= front + (": "@ + body));
            law_suffix(front, front, ": "@ + body);
        },
    }
}

/// A request goes to its address with its envelope. With basic authentication the envelope is
/// the body as it is, and a fourth header holds user name and password, joined by a colon, in
/// Base64; with the other kind no header tells them, and requests to other addresses, or with
/// other envelopes, are other requests.
pub proof fn law_request_carries_its_envelope(
    request: SoapRequest,
    cfg: OnvifConfig,
    envelope: Seq<char>,
    url: Seq<char>,
    other_envelope: Seq<char>,
    other_url: Seq<char>,
)
    requires
        carries(request, cfg, envelope, url),
    ensures
        request.url@ == url,
        carries(request, cfg, envelope, other_url) ==> other_url == url,
        cfg.auth_mode == OnvifAuthMode::Basic ==> {
            &&& request.body@ == envelope
            &&& carries(request, cfg, other_envelope, url) ==> other_envelope == envelope
            &&& request.headers@.len() == 4
            &&& request.headers@[3].0@ == "Authorization"@
            &&& request.headers@[3].1@ == "Basic "@ + base64_text(
                encode_utf8(cfg.username@ + ":"@ + cfg.password@),
            )
        },
        cfg.auth_mode == OnvifAuthMode::Wsse ==> request.headers@.len() == 3,
{
    let headers = headers_view(request.headers@);
    if cfg.auth_mode == OnvifAuthMode::Basic {
        assert(headers.len() == 4);
        assert(headers[3] == (request.headers@[3].0@, request.headers@[3].1@));
    } else {
        assert(headers.len() == 3);
    }
}

/// The body begins in the part of each envelope that is always the same.
proof fn lemma_openings()
    ensures
        occurs(profiles_envelope(), "<s:Body>"@),
        occurs(presets_opening(), "<s:Body>"@),
        occurs(move_opening(), "<s:Body>"@),
        occurs(stop_opening(), "<s:Body>"@),
        occurs(preset_opening(), "<s:Body>"@),
{
    reveal_strlit("<s:Body>");
    let body = "<s:Body>"@;
    reveal_strlit("<s:Envelope xmlns:s=\"http://www.w3.org/2003/05/soap-envelope\" xmlns:trt=\"http://www.onvif.org/ver10/media/wsdl\">\n  <s:Body>\n    <trt:GetProfiles/>\n  </s:Body>\n</s:Envelope>");
    assert(profiles_envelope().subrange(115, 115int + body.len()) =~= body);
    assert(occurs_at(profiles_envelope(), body, 115));
    reveal_strlit("<s:Envelope xmlns:s=\"http://www.w3.org/2003/05/soap-envelope\" xmlns:tptz=\"http://www.onvif.org/ver20/ptz/wsdl\">\n  <s:Body>\n    <tptz:GetPresets>\n      <tptz:ProfileToken>");
    assert(presets_opening().subrange(114, 114int + body.len()) =~= body);
    assert(occurs_at(presets_opening(), body, 114));
    reveal_strlit("<s:Envelope xmlns:s=\"http://www.w3.org/2003/05/soap-envelope\" xmlns:tptz=\"http://www.onvif.org/ver20/ptz/wsdl\" xmlns:tt=\"http://www.onvif.org/ver10/schema\">\n  <s:Body>\n    <tptz:ContinuousMove>\n      <tptz:ProfileToken>");
    assert(move_opening().subrange(159, 159int + body.len()) =~= body);
    assert(occurs_at(move_opening(), body, 159));
    reveal_strlit("<s:Envelope xmlns:s=\"http://www.w3.org/2003/05/soap-envelope\" xmlns:tptz=\"http://www.onvif.org/ver20/ptz/wsdl\">\n  <s:Body>\n    <tptz:Stop>\n      <tptz:ProfileToken>");
    assert(stop_opening().subrange(114, 114int + body.len()) =~= body);
    assert(occurs_at(stop_opening(), body, 114));
    reveal_strlit("<s:Envelope xmlns:s=\"http://www.w3.org/2003/05/soap-envelope\" xmlns:tptz=\"http://www.onvif.org/ver20/ptz/wsdl\">\n  <s:Body>\n    <tptz:GotoPreset>\n      <tptz:ProfileToken>");
    assert(preset_opening().subrange(114, 114int + body.len()) =~= body);
    assert(occurs_at(preset_opening(), body, 114));
}

/// Every envelope has a body to put a security header in front of, whatever tokens
/// and velocities it carries.
pub proof fn law_envelopes_have_bodies(
    profile: Seq<char>,
    x: Seq<char>,
    y: Seq<char>,
    zoom: Seq<char>,
    preset: Seq<char>,
)
    ensures
        occurs(profiles_envelope(), "<s:Body>"@),
        occurs(presets_envelope(profile), "<s:Body>"@),
        occurs(move_envelope(profile, x, y, zoom), "<s:Body>"@),
        occurs(stop_envelope(profile), "<s:Body>"@),
        occurs(preset_envelope(profile, preset), "<s:Body>"@),
{
    let body = "<s:Body>"@;
    lemma_openings();
    law_occurs_in_longer_text(presets_opening(), presets_envelope(profile), body);
    law_occurs_in_longer_text(move_opening(), move_envelope(profile, x, y, zoom), body);
    law_occurs_in_longer_text(stop_opening(), stop_envelope(profile), body);
    law_occurs_in_longer_text(preset_opening(), preset_envelope(profile, preset), body);
}

} // verus!

//! Mobile device nodes: configuration, the bridge that devices connect to,
//! device capabilities, the request/response protocol, connected devices,
//! discovery of devices on the network, and a channel over them.

use vstd::prelude::*;
use crate::ids::new_uuid;
use crate::clock::utc_now_millis;
use crate::pairs::param_views;
use crate::text::{
    decimal, push_decimal, str_eq, str_to_lowercase, string_push_str, to_owned_string,
    unicode_lowercase,
};

verus! {

/// Errors of mobile device handling.
#[derive(Debug, Clone, PartialEq, Eq)]
pub enum MobileError {
    DiscoveryFailed(String),
    ConnectionFailed(String),
    DeviceNotFound(String),
    NotSupported(String),
    Timeout,
    ProtocolError(String),
}

impl MobileError {
    /// The error's description.
    pub fn message(&self) -> (r: String)
        ensures
            r@ == match self {
                MobileError::DiscoveryFailed(s) => "Discovery failed: "@ + s@,
                MobileError::ConnectionFailed(s) => "Connection failed: "@ + s@,
                MobileError::DeviceNotFound(s) => "Device not found: "@ + s@,
                MobileError::NotSupported(s) => "Operation not supported: "@ + s@,
                MobileError::Timeout => "Timeout"@,
                MobileError::ProtocolError(s) => "Protocol error: "@ + s@,
            },
    {
        let mut out = String::new();
        match self {
            MobileError::DiscoveryFailed(s) => {
                string_push_str(&mut out, "Discovery failed: ");
                string_push_str(&mut out, s.as_str());
            },
            MobileError::ConnectionFailed(s) => {
                string_push_str(&mut out, "Connection failed: ");
                string_push_str(&mut out, s.as_str());
            },
            MobileError::DeviceNotFound(s) => {
                string_push_str(&mut out, "Device not found: ");
                string_push_str(&mut out, s.as_str());
            },
            MobileError::NotSupported(s) => {
                string_push_str(&mut out, "Operation not supported: ");
                string_push_str(&mut out, s.as_str());
            },
            MobileError::Timeout => {
                string_push_str(&mut out, "Timeout");
            },
            MobileError::ProtocolError(s) => {
                string_push_str(&mut out, "Protocol error: ");
                string_push_str(&mut out, s.as_str());
            },
        }
        out
    }
}

/// Settings of mobile device discovery and connection.
#[derive(Debug, Clone)]
pub struct MobileConfig {
    /// Service type browsed for.
    pub service_type: String,
    /// Connection timeout in seconds.
    pub timeout_secs: u64,
    /// Reconnect after a disconnect.
    pub auto_reconnect: bool,
    /// Most reconnect attempts.
    pub max_reconnects: u32,
    /// Encrypt the connection.
    pub encryption_enabled: bool,
}

impl Default for MobileConfig {
    fn default() -> (r: Self)
        ensures
            r.service_type@ == "_drbot._tcp.local."@,
            r.timeout_secs == 10,
            !r.auto_reconnect,
            r.max_reconnects == 3,
            r.encryption_enabled,
    {
        MobileConfig {
            service_type: to_owned_string("_drbot._tcp.local."),
            timeout_secs: 10,
            auto_reconnect: false,
            max_reconnects: 3,
            encryption_enabled: true,
        }
    }
}

/// Settings of the bridge that devices connect to.
#[derive(Debug, Clone)]
pub struct BridgeConfig {
    pub port: u16,
    pub host: String,
    pub tls_enabled: bool,
    /// Certificate path.
    pub tls_cert: Option<String>,
    /// Key path.
    pub tls_key: Option<String>,
    pub auth_token: Option<String>,
    pub max_connections: usize,
}

impl Default for BridgeConfig {
    fn default() -> (r: Self)
        ensures
            r.port == 8765,
            r.host@ == "0.0.0.0"@,
            !r.tls_enabled,
            r.tls_cert is None,
            r.tls_key is None,
            r.auth_token is None,
            r.max_connections == 10,
    {
        BridgeConfig {
            port: 8765,
            host: to_owned_string("0.0.0.0"),
            tls_enabled: false,
            tls_cert: None,
            tls_key: None,
            auth_token: None,
            max_connections: 10,
        }
    }
}

/// The URL of a bridge: `ws` (or `wss` with TLS), the host and the port.
pub open spec fn bridge_url(tls: bool, host: Seq<char>, port: u16) -> Seq<char> {
    (if tls { "wss"@ } else { "ws"@ }) + "://"@ + host + ":"@ + decimal(port as nat)
}

/// The server that mobile devices connect to.
pub struct MobileBridge {
    config: BridgeConfig,
    running: bool,
}

impl MobileBridge {
    /// The settings.
    pub closed spec fn config_view(&self) -> BridgeConfig {
        self.config
    }

    /// Whether the bridge is running.
    pub closed spec fn running_view(&self) -> bool {
        self.running
    }

    /// A stopped bridge with `config`.
    pub fn new(config: BridgeConfig) -> (r: Self)
        ensures
            r.config_view() == config,
            !r.running_view(),
    {
        MobileBridge { config, running: false }
    }

    /// Start; starting a running bridge does nothing.
    pub fn start(&mut self) -> (r: Result<(), MobileError>)
        ensures
            r is Ok,
            final(self).running_view(),
            final(self).config_view() == old(self).config_view(),
    {
        self.running = true;
        Ok(())
    }

    /// Stop; stopping a stopped bridge does nothing.
    pub fn stop(&mut self) -> (r: Result<(), MobileError>)
        ensures
            r is Ok,
            !final(self).running_view(),
            final(self).config_view() == old(self).config_view(),
    {
        self.running = false;
        Ok(())
    }

    /// Whether the bridge is running.
    pub fn is_running(&self) -> (r: bool)
        ensures
            r == self.running_view(),
    {
        self.running
    }

    /// The URL devices connect to.
    pub fn url(&self) -> (r: String)
        ensures
            r@ == bridge_url(self.config_view().tls_enabled, self.config_view().host@, self.config_view().port),
    {
        let mut out = String::new();
        if self.config.tls_enabled {
            string_push_str(&mut out, "wss");
        } else {
            string_push_str(&mut out, "ws");
        }
        string_push_str(&mut out, "://");
        string_push_str(&mut out, self.config.host.as_str());
        string_push_str(&mut out, ":");
        push_decimal(&mut out, self.config.port as usize);
        out
    }
}

/// What a device's camera offers.
#[derive(Debug, Clone)]
pub struct CameraCapability {
    /// Such as `back` and `front`.
    pub cameras: Vec<String>,
    /// Width and height.
    pub max_resolution: Option<(u32, u32)>,
    pub video_supported: bool,
    pub flash_supported: bool,
}

impl Default for CameraCapability {
    fn default() -> (r: Self)
        ensures
            r.cameras@.len() == 2,
            r.cameras@[0]@ == "back"@,
            r.cameras@[1]@ == "front"@,
            r.max_resolution == Some((4032u32, 3024u32)),
            r.video_supported,
            r.flash_supported,
    {
        let mut cameras: Vec<String> = Vec::new();
        cameras.push(to_owned_string("back"));
        cameras.push(to_owned_string("front"));
        CameraCapability {
            cameras,
            max_resolution: Some((4032, 3024)),
            video_supported: true,
            flash_supported: true,
        }
    }
}

/// What a device's screen offers.
#[derive(Debug, Clone, Copy, PartialEq, Eq)]
pub struct ScreenCapability {
    /// Width and height in pixels.
    pub resolution: (u32, u32),
    /// Scale factor in hundredths (300 for 3x).
    pub scale_percent: u32,
    pub mirroring_supported: bool,
    /// Frames per second when mirroring.
    pub max_mirror_fps: u32,
}

impl Default for ScreenCapability {
    fn default() -> (r: Self)
        ensures
            r.resolution == (1170u32, 2532u32),
            r.scale_percent == 300,
            r.mirroring_supported,
            r.max_mirror_fps == 30,
    {
        ScreenCapability {
            resolution: (1170, 2532),
            scale_percent: 300,
            mirroring_supported: true,
            max_mirror_fps: 30,
        }
    }
}

/// What a device can do.
#[derive(Debug, Clone)]
pub struct DeviceCapabilities {
    pub camera: Option<CameraCapability>,
    pub screen: Option<ScreenCapability>,
    pub notifications: bool,
    pub clipboard: bool,
    pub location: bool,
    pub contacts: bool,
    pub calendar: bool,
    pub photos: bool,
    pub audio_playback: bool,
    pub audio_recording: bool,
    pub haptics: bool,
    pub biometrics: bool,
}

/// Every access flag of `c` is `b`.
pub open spec fn all_access(c: DeviceCapabilities, b: bool) -> bool {
    &&& c.notifications == b
    &&& c.clipboard == b
    &&& c.location == b
    &&& c.contacts == b
    &&& c.calendar == b
    &&& c.photos == b
    &&& c.audio_playback == b
    &&& c.audio_recording == b
    &&& c.haptics == b
    &&& c.biometrics == b
}

impl Default for DeviceCapabilities {
    fn default() -> (r: Self)
        ensures
            r.camera is None,
            r.screen is None,
            all_access(r, false),
    {
        DeviceCapabilities {
            camera: None,
            screen: None,
            notifications: false,
            clipboard: false,
            location: false,
            contacts: false,
            calendar: false,
            photos: false,
            audio_playback: false,
            audio_recording: false,
            haptics: false,
            biometrics: false,
        }
    }
}

impl DeviceCapabilities {
    fn with_all(camera: CameraCapability, screen: ScreenCapability) -> (r: Self)
        ensures
            r.camera == Some(camera),
            r.screen == Some(screen),
            all_access(r, true),
    {
        DeviceCapabilities {
            camera: Some(camera),
            screen: Some(screen),
            notifications: true,
            clipboard: true,
            location: true,
            contacts: true,
            calendar: true,
            photos: true,
            audio_playback: true,
            audio_recording: true,
            haptics: true,
            biometrics: true,
        }
    }

    /// A typical iOS device: the default camera and screen, every access.
    pub fn ios_default() -> (r: Self)
        ensures
            r.camera is Some,
            r.screen == Some(
                ScreenCapability {
                    resolution: (1170u32, 2532u32),
                    scale_percent: 300u32,
                    mirroring_supported: true,
                    max_mirror_fps: 30u32,
                },
            ),
            all_access(r, true),
    {
        DeviceCapabilities::with_all(CameraCapability::default(), ScreenCapability::default())
    }

    /// A typical Android device: the default camera, a 1080 by 2400 screen
    /// at 2.75x, every access.
    pub fn android_default() -> (r: Self)
        ensures
            r.camera is Some,
            r.screen == Some(
                ScreenCapability {
                    resolution: (1080u32, 2400u32),
                    scale_percent: 275u32,
                    mirroring_supported: true,
                    max_mirror_fps: 30u32,
                },
            ),
            all_access(r, true),
    {
        let screen = ScreenCapability {
            resolution: (1080, 2400),
            scale_percent: 275,
            mirroring_supported: true,
            max_mirror_fps: 30,
        };
        DeviceCapabilities::with_all(CameraCapability::default(), screen)
    }

    /// Whether there is a camera.
    pub fn has_camera(&self) -> (r: bool)
        ensures
            r == self.camera is Some,
    {
        self.camera.is_some()
    }

    /// Whether the screen can be mirrored.
    pub fn can_mirror_screen(&self) -> (r: bool)
        ensures
            r == (self.screen matches Some(s) && s.mirroring_supported),
    {
        match &self.screen {
            Some(s) => s.mirroring_supported,
            None => false,
        }
    }
}


/// The RFC 3339 text that `chrono` gives the instant `ms` milliseconds
/// after the Unix epoch, or `None` where `chrono` has no such instant.
pub uninterp spec fn rfc3339_text(ms: i64) -> Option<Seq<char>>;

/// The milliseconds since the Unix epoch of the instant that
/// `chrono::DateTime::parse_from_rfc3339` reads from `s`, if it reads one.
pub uninterp spec fn rfc3339_millis(s: Seq<char>) -> Option<i64>;

/// The first and last millisecond of the years 0 to 9999, which `chrono`
/// writes in RFC 3339 with four digits.
pub open spec fn four_digit_year(ms: i64) -> bool {
    -62167219200000 <= ms <= 253402300799999
}

/// `chrono::DateTime::<Utc>::from_timestamp_millis` followed by
/// `to_rfc3339`: the result is `rfc3339_text(ms)`; for an instant of the
/// years 0 to 9999 it is some text, which `parse_from_rfc3339` reads back
/// as the same millisecond.
#[verifier::external_body]
pub(crate) fn rfc3339_of_millis(ms: i64) -> (r: Option<String>)
    ensures
        match r {
            Some(s) => rfc3339_text(ms) == Some(s@),
            None => rfc3339_text(ms) is None,
        },
        r is None ==> !four_digit_year(ms),
        r matches Some(s) ==> (four_digit_year(ms) ==> rfc3339_millis(s@) == Some(ms)),
{
    match chrono::DateTime::<chrono::Utc>::from_timestamp_millis(ms) {
        Some(d) => Some(d.to_rfc3339()),
        None => None,
    }
}

/// `chrono::DateTime::parse_from_rfc3339` followed by `timestamp_millis`:
/// the instant `s` holds, in milliseconds since the Unix epoch, if it holds
/// one.
#[verifier::external_body]
pub(crate) fn parse_rfc3339_millis(s: &str) -> (r: Option<i64>)
    ensures
        r == rfc3339_millis(s@),
{
    match chrono::DateTime::parse_from_rfc3339(s) {
        Ok(d) => Some(d.timestamp_millis()),
        Err(_) => None,
    }
}

/// `serde_json::Value::Object` of an empty map: the JSON value `{}`.
/// Nothing is stated of it: JSON values are carried, not inspected.
#[verifier::external_body]
fn empty_json_object() -> serde_json::Value {
    serde_json::Value::Object(serde_json::Map::new())
}

/// `serde_json::Value::as_array`, the items copied out, or none for a value
/// that is not an array. Nothing is stated of the items.
#[verifier::external_body]
fn json_array_items(v: &serde_json::Value) -> Vec<serde_json::Value> {
    match v.as_array() {
        Some(items) => items.to_vec(),
        None => Vec::new(),
    }
}

/// Parameters by view; `None` stands for JSON null.
pub open spec fn request_param_views(ps: Seq<(String, Option<String>)>) -> Seq<(Seq<char>, Option<Seq<char>>)> {
    ps.map_values(|p: (String, Option<String>)| (p.0@, match p.1 { Some(v) => Some(v@), None => None }))
}

/// A request to a device.
#[derive(Debug)]
pub struct MobileRequest {
    pub id: uuid::Uuid,
    pub request_type: String,
    /// The members of the parameter object; `None` stands for null.
    pub params: Vec<(String, Option<String>)>,
    /// When it was made, in milliseconds since the Unix epoch.
    pub timestamp_millis: i64,
}

impl MobileRequest {
    /// A request of type `request_type` without parameters.
    pub fn new(request_type: &str) -> (r: Self)
        ensures
            r.request_type@ == request_type@,
            r.params@.len() == 0,
    {
        MobileRequest::with_params(request_type, Vec::new())
    }

    /// A request of type `request_type` with `params`.
    pub fn with_params(request_type: &str, params: Vec<(String, Option<String>)>) -> (r: Self)
        ensures
            r.request_type@ == request_type@,
            r.params == params,
    {
        MobileRequest {
            id: new_uuid(),
            request_type: to_owned_string(request_type),
            params,
            timestamp_millis: utc_now_millis(),
        }
    }

    fn with_one_param(request_type: &str, key: &str, value: Option<String>) -> (r: Self)
        ensures
            r.request_type@ == request_type@,
            request_param_views(r.params@) == seq![(key@, match value { Some(v) => Some(v@), None => None })],
    {
        let mut params: Vec<(String, Option<String>)> = Vec::new();
        params.push((to_owned_string(key), value));
        let r = MobileRequest::with_params(request_type, params);
        assert(request_param_views(r.params@) =~= seq![(key@, match value { Some(v) => Some(v@), None => None })]);
        r
    }

    /// Take a photo with `camera`, the back one by default.
    pub fn take_photo(camera: Option<&str>) -> (r: Self)
        ensures
            r.request_type@ == "take_photo"@,
            request_param_views(r.params@) == seq![
                ("camera"@, Some(match camera { Some(c) => c@, None => "back"@ })),
            ],
    {
        let c = match camera {
            Some(c) => to_owned_string(c),
            None => to_owned_string("back"),
        };
        MobileRequest::with_one_param("take_photo", "camera", Some(c))
    }

    /// Take a screenshot.
    pub fn screenshot() -> (r: Self)
        ensures
            r.request_type@ == "screenshot"@,
            r.params@.len() == 0,
    {
        MobileRequest::new("screenshot")
    }

    /// The notifications since `since_millis` (all without it), the time
    /// given as RFC 3339 text.
    pub fn get_notifications(since_millis: Option<i64>) -> (r: Self)
        ensures
            r.request_type@ == "get_notifications"@,
            request_param_views(r.params@) == seq![
                ("since"@, match since_millis { Some(ms) => rfc3339_text(ms), None => None }),
            ],
    {
        let since = match since_millis {
            Some(ms) => rfc3339_of_millis(ms),
            None => None,
        };
        MobileRequest::with_one_param("get_notifications", "since", since)
    }

    /// Start mirroring the screen.
    pub fn start_screen_mirror() -> (r: Self)
        ensures
            r.request_type@ == "start_screen_mirror"@,
            r.params@.len() == 0,
    {
        MobileRequest::new("start_screen_mirror")
    }

    /// Stop mirroring the screen.
    pub fn stop_screen_mirror() -> (r: Self)
        ensures
            r.request_type@ == "stop_screen_mirror"@,
            r.params@.len() == 0,
    {
        MobileRequest::new("stop_screen_mirror")
    }

    /// Ask for the device's information.
    pub fn get_device_info() -> (r: Self)
        ensures
            r.request_type@ == "get_device_info"@,
            r.params@.len() == 0,
    {
        MobileRequest::new("get_device_info")
    }

    /// Check that the device answers.
    pub fn ping() -> (r: Self)
        ensures
            r.request_type@ == "ping"@,
            r.params@.len() == 0,
    {
        MobileRequest::new("ping")
    }
}

/// A device's answer to a request.
#[derive(Debug)]
pub struct MobileResponse {
    /// The request answered.
    pub id: uuid::Uuid,
    pub success: bool,
    pub data: serde_json::Value,
    pub error: Option<String>,
    /// When it was made, in milliseconds since the Unix epoch.
    pub timestamp_millis: i64,
}

impl MobileResponse {
    /// A successful answer to request `id` carrying `data`.
    pub fn success(id: uuid::Uuid, data: serde_json::Value) -> (r: Self)
        ensures
            r.id == id,
            r.success,
            r.data == data,
            r.error is None,
    {
        MobileResponse { id, success: true, data, error: None, timestamp_millis: utc_now_millis() }
    }

    /// A failed answer to request `id`, with an empty object as data.
    pub fn error(id: uuid::Uuid, error: &str) -> (r: Self)
        ensures
            r.id == id,
            !r.success,
            r.error matches Some(e) && e@ == error@,
    {
        MobileResponse {
            id,
            success: false,
            data: empty_json_object(),
            error: Some(to_owned_string(error)),
            timestamp_millis: utc_now_millis(),
        }
    }
}

/// What a device reports.
#[derive(Debug, Clone)]
pub enum MobileEvent {
    Connected { device_id: String, device_name: String },
    Disconnected { device_id: String, reason: Option<String> },
    /// A photo, as base64 text.
    Photo { device_id: String, data: String, format: String, width: u32, height: u32 },
    /// A screenshot, as base64 text.
    Screenshot { device_id: String, data: String, format: String, width: u32, height: u32 },
    /// A frame of the mirrored screen, as base64 text.
    ScreenFrame { device_id: String, data: String, format: String, sequence: u64 },
    /// A notification that arrived on the device.
    Notification {
        device_id: String,
        app: String,
        title: String,
        body: Option<String>,
        timestamp_millis: i64,
    },
    Error { device_id: String, error: String },
}

/// The state of a device's connection.
#[derive(Debug, Clone, Copy, PartialEq, Eq, Structural)]
pub enum DeviceStatus {
    Disconnected,
    Connecting,
    Connected,
    Error,
}

/// What is known of a device.
#[derive(Debug, Clone)]
pub struct DeviceInfo {
    pub id: String,
    pub name: String,
    /// `ios` or `android`.
    pub device_type: String,
    pub model: Option<String>,
    pub os_version: Option<String>,
    pub app_version: Option<String>,
    pub capabilities: DeviceCapabilities,
    pub status: DeviceStatus,
    /// When it connected, in milliseconds since the Unix epoch.
    pub connected_at_millis: Option<i64>,
}

/// `a` and `b` describe the same device, whatever its connection.
pub open spec fn same_identity(a: DeviceInfo, b: DeviceInfo) -> bool {
    &&& a.id == b.id
    &&& a.name == b.name
    &&& a.device_type == b.device_type
    &&& a.model == b.model
    &&& a.os_version == b.os_version
    &&& a.app_version == b.app_version
    &&& a.capabilities == b.capabilities
}

/// `r` is the error for a device that is not connected.
pub open spec fn not_connected<T>(r: Result<T, MobileError>) -> bool {
    r matches Err(MobileError::ConnectionFailed(m)) && m@ == "Not connected"@
}

/// A device connected over a WebSocket.
pub struct MobileDevice {
    info: DeviceInfo,
    ws_url: String,
}

/// A failed response as an error; a successful one as nothing.
fn expect_success(response: MobileResponse) -> (r: Result<(), MobileError>)
    ensures
        response.success ==> r is Ok,
        !response.success ==> (r matches Err(MobileError::ProtocolError(m)) && m@ == match response.error {
            Some(e) => e@,
            None => Seq::<char>::empty(),
        }),
{
    if response.success {
        Ok(())
    } else {
        match response.error {
            Some(e) => Err(MobileError::ProtocolError(e)),
            None => Err(MobileError::ProtocolError(String::new())),
        }
    }
}

impl MobileDevice {
    /// What is known of the device.
    pub closed spec fn info_view(&self) -> DeviceInfo {
        self.info
    }

    /// The address connected to.
    pub closed spec fn url_view(&self) -> Seq<char> {
        self.ws_url@
    }

    /// The device at `ws_url`, now connected.
    pub fn connect(ws_url: &str, info: DeviceInfo) -> (r: Result<Self, MobileError>)
        ensures
            r matches Ok(d) && {
                &&& same_identity(d.info_view(), info)
                &&& d.info_view().status == DeviceStatus::Connected
                &&& d.info_view().connected_at_millis is Some
                &&& d.url_view() == ws_url@
            },
    {
        let mut info = info;
        info.status = DeviceStatus::Connected;
        info.connected_at_millis = Some(utc_now_millis());
        Ok(MobileDevice { info, ws_url: to_owned_string(ws_url) })
    }

    /// What is known of the device.
    pub fn info(&self) -> (r: &DeviceInfo)
        ensures
            *r == self.info_view(),
    {
        &self.info
    }

    /// The device's identifier.
    pub fn id(&self) -> (r: String)
        ensures
            r == self.info_view().id,
    {
        self.info.id.clone()
    }

    /// The connection's state.
    pub fn status(&self) -> (r: DeviceStatus)
        ensures
            r == self.info_view().status,
    {
        self.info.status
    }

    /// Whether the device is connected.
    pub fn is_connected(&self) -> (r: bool)
        ensures
            r == (self.info_view().status == DeviceStatus::Connected),
    {
        self.info.status == DeviceStatus::Connected
    }

    /// Send `request`; a connected device answers it with success and an
    /// empty object.
    pub fn send(&self, request: MobileRequest) -> (r: Result<MobileResponse, MobileError>)
        ensures
            self.info_view().status == DeviceStatus::Connected ==> (r matches Ok(resp) && resp.id
                == request.id && resp.success && resp.error is None),
            self.info_view().status != DeviceStatus::Connected ==> not_connected(r),
    {
        if !self.is_connected() {
            return Err(MobileError::ConnectionFailed(to_owned_string("Not connected")));
        }
        Ok(MobileResponse::success(request.id, empty_json_object()))
    }

    /// Take a photo with `camera`; the image comes back empty.
    pub fn take_photo(&self, camera: Option<&str>) -> (r: Result<Vec<u8>, MobileError>)
        ensures
            self.info_view().status == DeviceStatus::Connected ==> (r matches Ok(v) && v@.len() == 0),
            self.info_view().status != DeviceStatus::Connected ==> not_connected(r),
    {
        let response = self.send(MobileRequest::take_photo(camera))?;
        expect_success(response)?;
        Ok(Vec::new())
    }

    /// Take a screenshot; the image comes back empty.
    pub fn take_screenshot(&self) -> (r: Result<Vec<u8>, MobileError>)
        ensures
            self.info_view().status == DeviceStatus::Connected ==> (r matches Ok(v) && v@.len() == 0),
            self.info_view().status != DeviceStatus::Connected ==> not_connected(r),
    {
        let response = self.send(MobileRequest::screenshot())?;
        expect_success(response)?;
        Ok(Vec::new())
    }

    /// The notifications since `since_millis`: the items of the answer's
    /// data where it is an array.
    pub fn get_notifications(&self, since_millis: Option<i64>) -> (r: Result<Vec<serde_json::Value>, MobileError>)
        ensures
            self.info_view().status == DeviceStatus::Connected ==> r is Ok,
            self.info_view().status != DeviceStatus::Connected ==> not_connected(r),
    {
        let response = self.send(MobileRequest::get_notifications(since_millis))?;
        if response.success {
            Ok(json_array_items(&response.data))
        } else {
            match response.error {
                Some(e) => Err(MobileError::ProtocolError(e)),
                None => Err(MobileError::ProtocolError(String::new())),
            }
        }
    }

    /// Start mirroring the screen.
    pub fn start_screen_mirror(&self) -> (r: Result<(), MobileError>)
        ensures
            self.info_view().status == DeviceStatus::Connected ==> r is Ok,
            self.info_view().status != DeviceStatus::Connected ==> not_connected(r),
    {
        let response = self.send(MobileRequest::start_screen_mirror())?;
        expect_success(response)
    }

    /// Stop mirroring the screen.
    pub fn stop_screen_mirror(&self) -> (r: Result<(), MobileError>)
        ensures
            self.info_view().status == DeviceStatus::Connected ==> r is Ok,
            self.info_view().status != DeviceStatus::Connected ==> not_connected(r),
    {
        let response = self.send(MobileRequest::stop_screen_mirror())?;
        expect_success(response)
    }

    /// Disconnect.
    pub fn disconnect(&mut self) -> (r: Result<(), MobileError>)
        ensures
            r is Ok,
            same_identity(final(self).info_view(), old(self).info_view()),
            final(self).info_view().status == DeviceStatus::Disconnected,
            final(self).info_view().connected_at_millis == old(self).info_view().connected_at_millis,
            final(self).url_view() == old(self).url_view(),
    {
        self.info.status = DeviceStatus::Disconnected;
        Ok(())
    }
}


/// A device found on the network.
#[derive(Debug, Clone)]
pub struct DiscoveredDevice {
    pub id: String,
    pub name: String,
    /// `ios` or `android`.
    pub device_type: String,
    /// The address, as text.
    pub ip: String,
    pub port: u16,
    /// When it was first found, in milliseconds since the Unix epoch.
    pub discovered_at_millis: i64,
    /// When it was last seen, in milliseconds since the Unix epoch.
    pub last_seen_millis: i64,
    /// Properties of its service record, no name twice.
    pub properties: Vec<(String, String)>,
}

/// `a` and `b` hold the same values.
pub open spec fn same_device(a: DiscoveredDevice, b: DiscoveredDevice) -> bool {
    &&& a.id == b.id
    &&& a.name == b.name
    &&& a.device_type == b.device_type
    &&& a.ip == b.ip
    &&& a.port == b.port
    &&& a.discovered_at_millis == b.discovered_at_millis
    &&& a.last_seen_millis == b.last_seen_millis
    &&& a.properties@ == b.properties@
}

/// The WebSocket URL of a device at `ip` and `port`.
pub open spec fn websocket_url_of(ip: Seq<char>, port: u16) -> Seq<char> {
    "ws://"@ + ip + ":"@ + decimal(port as nat) + "/drbot"@
}

impl DiscoveredDevice {
    /// The WebSocket URL of the device.
    pub fn websocket_url(&self) -> (r: String)
        ensures
            r@ == websocket_url_of(self.ip@, self.port),
    {
        let mut out = String::new();
        string_push_str(&mut out, "ws://");
        string_push_str(&mut out, self.ip.as_str());
        string_push_str(&mut out, ":");
        push_decimal(&mut out, self.port as usize);
        string_push_str(&mut out, "/drbot");
        out
    }

    /// Whether the device runs iOS, in any case.
    pub fn is_ios(&self) -> (r: bool)
        ensures
            r == (unicode_lowercase(self.device_type@) == "ios"@),
    {
        let t = str_to_lowercase(self.device_type.as_str());
        str_eq(t.as_str(), "ios")
    }

    /// Whether the device runs Android, in any case.
    pub fn is_android(&self) -> (r: bool)
        ensures
            r == (unicode_lowercase(self.device_type@) == "android"@),
    {
        let t = str_to_lowercase(self.device_type.as_str());
        str_eq(t.as_str(), "android")
    }

    /// A copy of the device.
    pub fn duplicate(&self) -> (r: Self)
        ensures
            same_device(r, *self),
    {
        let mut properties: Vec<(String, String)> = Vec::new();
        let mut i: usize = 0;
        while i < self.properties.len()
            invariant
                i <= self.properties@.len(),
                properties@ == self.properties@.take(i as int),
            decreases self.properties@.len() - i,
        {
            let p = &self.properties[i];
            properties.push((p.0.clone(), p.1.clone()));
            assert(self.properties@.take(i as int + 1) =~= self.properties@.take(i as int).push(self.properties@[i as int]));
            i = i + 1;
        }
        assert(self.properties@.take(i as int) =~= self.properties@);
        DiscoveredDevice {
            id: self.id.clone(),
            name: self.name.clone(),
            device_type: self.device_type.clone(),
            ip: self.ip.clone(),
            port: self.port,
            discovered_at_millis: self.discovered_at_millis,
            last_seen_millis: self.last_seen_millis,
            properties,
        }
    }
}

/// What discovery reports.
#[derive(Debug, Clone)]
pub enum DiscoveryEvent {
    DeviceFound(DiscoveredDevice),
    /// The identifier of a device no longer seen.
    DeviceLost(String),
    Started,
    Stopped,
    Error(String),
}

/// `e` reports the device with identifier `id` lost.
pub open spec fn is_lost_event(e: DiscoveryEvent, id: Seq<char>) -> bool {
    e matches DiscoveryEvent::DeviceLost(s) && s@ == id
}

/// No identifier occurs twice among `ds`.
pub open spec fn ids_distinct(ds: Seq<DiscoveredDevice>) -> bool {
    forall|i: int, j: int| 0 <= i < ds.len() && 0 <= j < ds.len() && i != j ==> (#[trigger] ds[i]).id@ != (#[trigger] ds[j]).id@
}

/// Some device among `ds` has identifier `id`.
pub open spec fn has_id(ds: Seq<DiscoveredDevice>, id: Seq<char>) -> bool {
    exists|i: int| 0 <= i < ds.len() && (#[trigger] ds[i]).id@ == id
}

/// Whether `d` was last seen more than `max_age_secs` seconds before
/// `now_millis`.
pub open spec fn is_stale(d: DiscoveredDevice, now_millis: i64, max_age_secs: i64) -> bool {
    now_millis - d.last_seen_millis > max_age_secs * 1000
}

/// The devices of `ds` that are not stale, in order.
pub open spec fn fresh_devices(ds: Seq<DiscoveredDevice>, now_millis: i64, max_age_secs: i64) -> Seq<DiscoveredDevice>
    decreases ds.len(),
{
    if ds.len() == 0 {
        ds
    } else {
        let rest = fresh_devices(ds.drop_last(), now_millis, max_age_secs);
        if is_stale(ds.last(), now_millis, max_age_secs) {
            rest
        } else {
            rest.push(ds.last())
        }
    }
}

/// The identifiers of the stale devices of `ds`, in order.
pub open spec fn stale_ids(ds: Seq<DiscoveredDevice>, now_millis: i64, max_age_secs: i64) -> Seq<Seq<char>>
    decreases ds.len(),
{
    if ds.len() == 0 {
        Seq::empty()
    } else {
        let rest = stale_ids(ds.drop_last(), now_millis, max_age_secs);
        if is_stale(ds.last(), now_millis, max_age_secs) {
            rest.push(ds.last().id@)
        } else {
            rest
        }
    }
}

proof fn lemma_fresh_stale_len(ds: Seq<DiscoveredDevice>, now_millis: i64, max_age_secs: i64)
    ensures
        fresh_devices(ds, now_millis, max_age_secs).len() + stale_ids(ds, now_millis, max_age_secs).len() == ds.len(),
    decreases ds.len(),
{
    if ds.len() > 0 {
        lemma_fresh_stale_len(ds.drop_last(), now_millis, max_age_secs);
    }
}

/// Finds devices on the network and keeps the ones found, by identifier.
pub struct MobileDiscovery {
    config: MobileConfig,
    devices: Vec<DiscoveredDevice>,
    events: Vec<DiscoveryEvent>,
    running: bool,
}

impl MobileDiscovery {
    /// The devices found, no identifier twice.
    pub closed spec fn devices_view(&self) -> Seq<DiscoveredDevice> {
        self.devices@
    }

    /// The events reported and not yet taken, oldest first.
    pub closed spec fn events_view(&self) -> Seq<DiscoveryEvent> {
        self.events@
    }

    /// Whether discovery is running.
    pub closed spec fn running_view(&self) -> bool {
        self.running
    }

    /// The settings.
    pub closed spec fn config_view(&self) -> MobileConfig {
        self.config
    }

    /// No identifier occurs twice among the devices.
    pub open spec fn wf(&self) -> bool {
        ids_distinct(self.devices_view())
    }

    /// Discovery with the default settings, stopped, nothing found.
    pub fn new() -> (r: Result<Self, MobileError>)
        ensures
            r matches Ok(d) && d.wf() && d.devices_view().len() == 0 && d.events_view().len() == 0
                && !d.running_view() && d.config_view().service_type@ == "_drbot._tcp.local."@,
    {
        MobileDiscovery::with_config(MobileConfig::default())
    }

    /// Discovery with `config`, stopped, nothing found.
    pub fn with_config(config: MobileConfig) -> (r: Result<Self, MobileError>)
        ensures
            r matches Ok(d) && d.wf() && d.devices_view().len() == 0 && d.events_view().len() == 0
                && !d.running_view() && d.config_view() == config,
    {
        Ok(MobileDiscovery { config, devices: Vec::new(), events: Vec::new(), running: false })
    }

    /// Start; reports `Started` unless already running.
    pub fn start(&mut self) -> (r: Result<(), MobileError>)
        ensures
            r is Ok,
            final(self).running_view(),
            final(self).devices_view() == old(self).devices_view(),
            final(self).config_view() == old(self).config_view(),
            final(self).events_view() == if old(self).running_view() {
                old(self).events_view()
            } else {
                old(self).events_view().push(DiscoveryEvent::Started)
            },
    {
        if self.running {
            return Ok(());
        }
        self.running = true;
        self.events.push(DiscoveryEvent::Started);
        Ok(())
    }

    /// Stop; reports `Stopped` unless already stopped.
    pub fn stop(&mut self) -> (r: Result<(), MobileError>)
        ensures
            r is Ok,
            !final(self).running_view(),
            final(self).devices_view() == old(self).devices_view(),
            final(self).config_view() == old(self).config_view(),
            final(self).events_view() == if !old(self).running_view() {
                old(self).events_view()
            } else {
                old(self).events_view().push(DiscoveryEvent::Stopped)
            },
    {
        if !self.running {
            return Ok(());
        }
        self.running = false;
        self.events.push(DiscoveryEvent::Stopped);
        Ok(())
    }

    /// Whether discovery is running.
    pub fn is_running(&self) -> (r: bool)
        ensures
            r == self.running_view(),
    {
        self.running
    }

    /// The devices found.
    pub fn list_devices(&self) -> (r: &[DiscoveredDevice])
        ensures
            r@ == self.devices_view(),
    {
        self.devices.as_slice()
    }

    fn index_of(&self, id: &str) -> (r: Option<usize>)
        ensures
            match r {
                Some(i) => i < self.devices@.len() && self.devices@[i as int].id@ == id@,
                None => !has_id(self.devices@, id@),
            },
    {
        let mut i: usize = 0;
        while i < self.devices.len()
            invariant
                i <= self.devices@.len(),
                forall|j: int| 0 <= j < i ==> (#[trigger] self.devices@[j]).id@ != id@,
            decreases self.devices@.len() - i,
        {
            if str_eq(self.devices[i].id.as_str(), id) {
                return Some(i);
            }
            i = i + 1;
        }
        None
    }

    /// The device with identifier `id`.
    pub fn get_device(&self, id: &str) -> (r: Option<&DiscoveredDevice>)
        ensures
            match r {
                Some(d) => d.id@ == id@ && self.devices_view().contains(*d),
                None => !has_id(self.devices_view(), id@),
            },
    {
        match self.index_of(id) {
            Some(i) => {
                assert(self.devices@.contains(self.devices@[i as int]));
                Some(&self.devices[i])
            },
            None => None,
        }
    }

    /// Take the events reported so far.
    pub fn take_events(&mut self) -> (r: Vec<DiscoveryEvent>)
        ensures
            r@ == old(self).events_view(),
            final(self).events_view().len() == 0,
            final(self).devices_view() == old(self).devices_view(),
            final(self).running_view() == old(self).running_view(),
            final(self).config_view() == old(self).config_view(),
    {
        let mut taken: Vec<DiscoveryEvent> = Vec::new();
        std::mem::swap(&mut taken, &mut self.events);
        taken
    }

    /// Add `device`, replacing one with the same identifier in its place,
    /// and report it found.
    pub fn add_device(&mut self, device: DiscoveredDevice)
        requires
            old(self).wf(),
        ensures
            final(self).wf(),
            has_id(old(self).devices_view(), device.id@) ==> exists|i: int|
                0 <= i < old(self).devices_view().len() && old(self).devices_view()[i].id@ == device.id@
                    && final(self).devices_view() == old(self).devices_view().update(i, device),
            !has_id(old(self).devices_view(), device.id@) ==> final(self).devices_view()
                == old(self).devices_view().push(device),
            final(self).events_view().len() == old(self).events_view().len() + 1,
            final(self).events_view().drop_last() == old(self).events_view(),
            final(self).events_view().last() matches DiscoveryEvent::DeviceFound(d) && same_device(d, device),
            final(self).running_view() == old(self).running_view(),
            final(self).config_view() == old(self).config_view(),
    {
        let copy = device.duplicate();
        let ghost old_devices = self.devices@;
        match self.index_of(device.id.as_str()) {
            Some(i) => {
                self.devices.set(i, device);
                proof {
                    assert forall|a: int, b: int|
                        0 <= a < self.devices@.len() && 0 <= b < self.devices@.len() && a != b implies
                        (#[trigger] self.devices@[a]).id@ != (#[trigger] self.devices@[b]).id@ by {
                        if a != i && b != i {
                            assert(old_devices[a] == self.devices@[a]);
                            assert(old_devices[b] == self.devices@[b]);
                        } else if a == i {
                            assert(old_devices[b] == self.devices@[b]);
                            assert(old_devices[i as int].id@ != old_devices[b].id@);
                        } else {
                            assert(old_devices[a] == self.devices@[a]);
                            assert(old_devices[i as int].id@ != old_devices[a].id@);
                        }
                    }
                }
            },
            None => {
                self.devices.push(device);
                proof {
                    assert forall|a: int, b: int|
                        0 <= a < self.devices@.len() && 0 <= b < self.devices@.len() && a != b implies
                        (#[trigger] self.devices@[a]).id@ != (#[trigger] self.devices@[b]).id@ by {
                        let n = old_devices.len() as int;
                        if a < n && b < n {
                            assert(old_devices[a] == self.devices@[a]);
                            assert(old_devices[b] == self.devices@[b]);
                        } else if a == n {
                            assert(old_devices[b] == self.devices@[b]);
                        } else {
                            assert(old_devices[a] == self.devices@[a]);
                        }
                    }
                }
            },
        }
        let ghost old_events = self.events@;
        self.events.push(DiscoveryEvent::DeviceFound(copy));
        assert(self.events@.drop_last() =~= old_events);
    }

    /// Remove the device with identifier `id`, reporting it lost; nothing
    /// happens where there is none.
    pub fn remove_device(&mut self, id: &str)
        requires
            old(self).wf(),
        ensures
            final(self).wf(),
            has_id(old(self).devices_view(), id@) ==> exists|i: int|
                0 <= i < old(self).devices_view().len() && old(self).devices_view()[i].id@ == id@
                    && final(self).devices_view() == old(self).devices_view().remove(i)
                    && final(self).events_view().len() == old(self).events_view().len() + 1
                    && final(self).events_view().drop_last() == old(self).events_view()
                    && (final(self).events_view().last() matches DiscoveryEvent::DeviceLost(s) && s@ == id@),
            !has_id(old(self).devices_view(), id@) ==> final(self).devices_view() == old(self).devices_view()
                && final(self).events_view() == old(self).events_view(),
            final(self).running_view() == old(self).running_view(),
            final(self).config_view() == old(self).config_view(),
    {
        match self.index_of(id) {
            Some(i) => {
                let ghost old_devices = self.devices@;
                let ghost old_events = self.events@;
                let d = self.devices.remove(i);
                proof {
                    assert forall|a: int, b: int|
                        0 <= a < self.devices@.len() && 0 <= b < self.devices@.len() && a != b implies
                        (#[trigger] self.devices@[a]).id@ != (#[trigger] self.devices@[b]).id@ by {
                        let a0 = if a < i { a } else { a + 1 };
                        let b0 = if b < i { b } else { b + 1 };
                        assert(self.devices@[a] == old_devices[a0]);
                        assert(self.devices@[b] == old_devices[b0]);
                    }
                }
                self.events.push(DiscoveryEvent::DeviceLost(d.id));
                assert(self.events@.drop_last() =~= old_events);
            },
            None => {},
        }
    }

    /// Remove the devices last seen more than `max_age_secs` seconds before
    /// `now_millis`, reporting each lost, and give how many went.
    pub fn cleanup_stale_at(&mut self, now_millis: i64, max_age_secs: i64) -> (r: usize)
        requires
            old(self).wf(),
            -9_223_372_036_854_775 <= max_age_secs <= 9_223_372_036_854_775,
        ensures
            final(self).wf(),
            final(self).devices_view() == fresh_devices(old(self).devices_view(), now_millis, max_age_secs),
            r == stale_ids(old(self).devices_view(), now_millis, max_age_secs).len(),
            final(self).events_view().len() == old(self).events_view().len() + r,
            final(self).events_view().take(old(self).events_view().len() as int) == old(self).events_view(),
            forall|k: int| 0 <= k < r ==> is_lost_event(#[trigger] final(self).events_view()[old(self).events_view().len() + k],
                stale_ids(old(self).devices_view(), now_millis, max_age_secs)[k]),
            final(self).running_view() == old(self).running_view(),
            final(self).config_view() == old(self).config_view(),
    {
        let ghost ds = self.devices@;
        let ghost ev0 = self.events@;
        let threshold: i128 = (max_age_secs as i128) * 1000;
        let mut i: usize = 0;
        let mut j: usize = 0;
        let mut removed: usize = 0;
        let n: usize = self.devices.len();
        proof {
            lemma_fresh_stale_len(ds.take(0), now_millis, max_age_secs);
            assert(ds.take(0) =~= Seq::<DiscoveredDevice>::empty());
            assert(self.devices@ =~= fresh_devices(ds.take(0), now_millis, max_age_secs) + ds.skip(0));
        }
        while j < n
            invariant
                n == ds.len(),
                j <= ds.len(),
                ids_distinct(ds),
                ev0 == old(self).events@,
                ds == old(self).devices@,
                threshold == max_age_secs * 1000,
                self.running == old(self).running,
                self.config == old(self).config,
                i == fresh_devices(ds.take(j as int), now_millis, max_age_secs).len(),
                removed == stale_ids(ds.take(j as int), now_millis, max_age_secs).len(),
                i + removed == j,
                self.devices@ == fresh_devices(ds.take(j as int), now_millis, max_age_secs) + ds.skip(j as int),
                self.events@.len() == ev0.len() + removed,
                self.events@.take(ev0.len() as int) == ev0,
                forall|k: int| 0 <= k < removed ==> is_lost_event(#[trigger] self.events@[ev0.len() + k],
                    stale_ids(ds.take(j as int), now_millis, max_age_secs)[k]),
            decreases ds.len() - j,
        {
            let ghost fr = fresh_devices(ds.take(j as int), now_millis, max_age_secs);
            let ghost st = stale_ids(ds.take(j as int), now_millis, max_age_secs);
            proof {
                assert(ds.take(j as int + 1).drop_last() =~= ds.take(j as int));
                assert(ds.take(j as int + 1).last() == ds[j as int]);
                assert(self.devices@[i as int] == ds[j as int]);
            }
            let last_seen = self.devices[i].last_seen_millis;
            if (now_millis as i128) - (last_seen as i128) > threshold {
                let ghost evs = self.events@;
                let d = self.devices.remove(i);
                self.events.push(DiscoveryEvent::DeviceLost(d.id));
                removed = removed + 1;
                proof {
                    assert(self.devices@ =~= fr + ds.skip(j as int + 1));
                    assert(self.events@.take(ev0.len() as int) =~= evs.take(ev0.len() as int));
                    assert forall|k: int| 0 <= k < removed implies is_lost_event(#[trigger] self.events@[ev0.len() + k],
                        stale_ids(ds.take(j as int + 1), now_millis, max_age_secs)[k]) by {
                        if k < removed - 1 {
                            assert(self.events@[ev0.len() + k] == evs[ev0.len() + k]);
                            assert(stale_ids(ds.take(j as int + 1), now_millis, max_age_secs)[k] == st[k]);
                        }
                    }
                }
            } else {
                i = i + 1;
                proof {
                    assert(self.devices@ =~= fr.push(ds[j as int]) + ds.skip(j as int + 1));
                }
            }
            j = j + 1;
        }
        proof {
            assert(ds.take(j as int) =~= ds);
            assert(ds.skip(j as int) =~= Seq::<DiscoveredDevice>::empty());
            assert(self.devices@ =~= fresh_devices(ds, now_millis, max_age_secs));
            lemma_fresh_subseq(ds, now_millis, max_age_secs);
        }
        removed
    }

    /// Remove the devices not seen for more than `max_age_secs` seconds,
    /// reporting each lost, and give how many went.
    pub fn cleanup_stale(&mut self, max_age_secs: i64) -> (r: usize)
        requires
            old(self).wf(),
            -9_223_372_036_854_775 <= max_age_secs <= 9_223_372_036_854_775,
        ensures
            final(self).wf(),
            exists|now: i64| final(self).devices_view() == fresh_devices(old(self).devices_view(), now, max_age_secs)
                && r == stale_ids(old(self).devices_view(), now, max_age_secs).len(),
    {
        let now = utc_now_millis();
        self.cleanup_stale_at(now, max_age_secs)
    }
}

/// The devices kept are among the devices given, in order, so their
/// identifiers stay distinct.
proof fn lemma_fresh_subseq(ds: Seq<DiscoveredDevice>, now_millis: i64, max_age_secs: i64)
    requires
        ids_distinct(ds),
    ensures
        ids_distinct(fresh_devices(ds, now_millis, max_age_secs)),
        forall|k: int| 0 <= k < fresh_devices(ds, now_millis, max_age_secs).len() ==> ds.contains(
            #[trigger] fresh_devices(ds, now_millis, max_age_secs)[k],
        ),
    decreases ds.len(),
{
    if ds.len() > 0 {
        let init = ds.drop_last();
        assert(ids_distinct(init)) by {
            assert forall|a: int, b: int| 0 <= a < init.len() && 0 <= b < init.len() && a != b implies
                (#[trigger] init[a]).id@ != (#[trigger] init[b]).id@ by {
                assert(init[a] == ds[a]);
                assert(init[b] == ds[b]);
            }
        }
        lemma_fresh_subseq(init, now_millis, max_age_secs);
        let rest = fresh_devices(init, now_millis, max_age_secs);
        assert forall|k: int| 0 <= k < rest.len() implies ds.contains(#[trigger] rest[k]) by {
            let w = choose|x: int| 0 <= x < init.len() && init[x] == rest[k];
            assert(ds[w] == rest[k]);
        }
        if !is_stale(ds.last(), now_millis, max_age_secs) {
            let f = rest.push(ds.last());
            assert forall|k: int| 0 <= k < f.len() implies ds.contains(#[trigger] f[k]) by {
                if k < rest.len() {
                    assert(f[k] == rest[k]);
                } else {
                    assert(ds[ds.len() - 1] == f[k]);
                }
            }
            assert forall|a: int, b: int| 0 <= a < f.len() && 0 <= b < f.len() && a != b implies
                (#[trigger] f[a]).id@ != (#[trigger] f[b]).id@ by {
                if a < rest.len() && b < rest.len() {
                    assert(f[a] == rest[a]);
                    assert(f[b] == rest[b]);
                } else if a < rest.len() {
                    assert(f[a] == rest[a]);
                    let w = choose|x: int| 0 <= x < init.len() && init[x] == rest[a];
                    assert(ds[w] == f[a]);
                    assert(ds[ds.len() - 1] == f[b]);
                } else {
                    assert(f[b] == rest[b]);
                    let w = choose|x: int| 0 <= x < init.len() && init[x] == rest[b];
                    assert(ds[w] == f[b]);
                    assert(ds[ds.len() - 1] == f[a]);
                }
            }
        }
    }
}


/// A channel whose peers are mobile devices.
pub struct MobileChannel {
    discovery: MobileDiscovery,
    devices: Vec<MobileDevice>,
    connected: bool,
}

/// Some device among `ds` has identifier `id`.
pub open spec fn has_device(ds: Seq<MobileDevice>, id: Seq<char>) -> bool {
    exists|i: int| 0 <= i < ds.len() && (#[trigger] ds[i]).info_view().id@ == id
}

impl MobileChannel {
    /// The discovery service.
    pub closed spec fn discovery_view(&self) -> MobileDiscovery {
        self.discovery
    }

    /// The devices added, in order.
    pub closed spec fn devices_view(&self) -> Seq<MobileDevice> {
        self.devices@
    }

    /// Whether the channel is connected.
    pub closed spec fn connected_view(&self) -> bool {
        self.connected
    }

    /// A channel with fresh discovery, no device, not connected.
    pub fn new() -> (r: Result<Self, MobileError>)
        ensures
            r matches Ok(c) && c.discovery_view().wf() && !c.discovery_view().running_view()
                && c.devices_view().len() == 0 && !c.connected_view(),
    {
        let discovery = MobileDiscovery::new()?;
        Ok(MobileChannel { discovery, devices: Vec::new(), connected: false })
    }

    /// The discovery service.
    pub fn discovery(&self) -> (r: &MobileDiscovery)
        ensures
            *r == self.discovery_view(),
    {
        &self.discovery
    }

    /// What is known of each device, in order.
    pub fn list_devices(&self) -> (r: Vec<&DeviceInfo>)
        ensures
            r@.len() == self.devices_view().len(),
            forall|i: int| 0 <= i < r@.len() ==> *(#[trigger] r@[i]) == self.devices_view()[i].info_view(),
    {
        let mut infos: Vec<&DeviceInfo> = Vec::new();
        let mut i: usize = 0;
        while i < self.devices.len()
            invariant
                i <= self.devices@.len(),
                infos@.len() == i,
                forall|k: int| 0 <= k < i ==> *(#[trigger] infos@[k]) == self.devices@[k].info_view(),
            decreases self.devices@.len() - i,
        {
            infos.push(self.devices[i].info());
            i = i + 1;
        }
        infos
    }

    /// Add a connected device.
    pub fn add_device(&mut self, device: MobileDevice)
        ensures
            final(self).devices_view() == old(self).devices_view().push(device),
            final(self).discovery_view() == old(self).discovery_view(),
            final(self).connected_view() == old(self).connected_view(),
    {
        self.devices.push(device);
    }

    /// Meant to remove the device with identifier `device_id`; it keeps
    /// every device.
    pub fn remove_device(&mut self, device_id: &str)
        ensures
            final(self).devices_view() == old(self).devices_view(),
            final(self).discovery_view() == old(self).discovery_view(),
            final(self).connected_view() == old(self).connected_view(),
    {
    }

    /// Start discovery and connect.
    pub fn connect(&mut self) -> (r: Result<(), MobileError>)
        ensures
            r is Ok,
            final(self).connected_view(),
            final(self).discovery_view().running_view(),
            final(self).discovery_view().devices_view() == old(self).discovery_view().devices_view(),
            final(self).devices_view() == old(self).devices_view(),
    {
        self.discovery.start()?;
        self.connected = true;
        Ok(())
    }

    /// Send to the device with identifier `to`: there must be one.
    pub fn send(&self, to: &str) -> (r: Result<(), MobileError>)
        ensures
            has_device(self.devices_view(), to@) ==> r is Ok,
            !has_device(self.devices_view(), to@) ==> (r matches Err(MobileError::DeviceNotFound(s)) && s@ == to@),
    {
        let mut i: usize = 0;
        while i < self.devices.len()
            invariant
                i <= self.devices@.len(),
                forall|k: int| 0 <= k < i ==> (#[trigger] self.devices@[k]).info_view().id@ != to@,
            decreases self.devices@.len() - i,
        {
            if str_eq(self.devices[i].info().id.as_str(), to) {
                return Ok(());
            }
            i = i + 1;
        }
        Err(MobileError::DeviceNotFound(to_owned_string(to)))
    }

    /// Stop discovery, disconnect every device and the channel.
    pub fn disconnect(&mut self) -> (r: Result<(), MobileError>)
        ensures
            r is Ok,
            !final(self).connected_view(),
            !final(self).discovery_view().running_view(),
            final(self).devices_view().len() == old(self).devices_view().len(),
            forall|i: int| 0 <= i < final(self).devices_view().len() ==> {
                &&& same_identity((#[trigger] final(self).devices_view()[i]).info_view(), old(self).devices_view()[i].info_view())
                &&& final(self).devices_view()[i].info_view().status == DeviceStatus::Disconnected
            },
    {
        self.discovery.stop()?;
        let mut devices: Vec<MobileDevice> = Vec::new();
        std::mem::swap(&mut devices, &mut self.devices);
        let ghost old_devices = devices@;
        let mut done: Vec<MobileDevice> = Vec::new();
        let mut rest = devices;
        while rest.len() > 0
            invariant
                done@.len() + rest@.len() == old_devices.len(),
                rest@ == old_devices.skip(done@.len() as int),
                forall|i: int| 0 <= i < done@.len() ==> {
                    &&& same_identity((#[trigger] done@[i]).info_view(), old_devices[i].info_view())
                    &&& done@[i].info_view().status == DeviceStatus::Disconnected
                },
            decreases rest@.len(),
        {
            let ghost k = done@.len() as int;
            let mut d = rest.remove(0);
            proof {
                assert(d == old_devices[k]);
                assert(rest@ =~= old_devices.skip(k + 1));
            }
            let _ = d.disconnect();
            done.push(d);
        }
        self.devices = done;
        self.connected = false;
        Ok(())
    }

    /// The kind of channel: `mobile`.
    pub fn channel_type(&self) -> (r: &'static str)
        ensures
            r@ == "mobile"@,
    {
        "mobile"
    }
}

} // verus!

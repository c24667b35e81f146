//! Client configuration as stored on disk: the API base URL, the saved token,
//! the last place the user was, and display preferences.
use crate::text::{chars_of, owned, string_of};
use vstd::prelude::*;

verus! {

pub const DEFAULT_API_BASE_URL: &'static str = "https://api.fluxer.app/v1";

#[derive(Debug)]
pub struct UiSettings {
    pub clock_12h: bool,
    pub show_typing_indicators: bool,
    pub performance_mode: bool,
    /// An older setting that is read and kept, never written back.
    pub legacy_image_display: Option<String>,
}

impl Clone for UiSettings {
    fn clone(&self) -> (r: Self)
        ensures
            r == *self,
    {
        UiSettings {
            clock_12h: self.clock_12h,
            show_typing_indicators: self.show_typing_indicators,
            performance_mode: self.performance_mode,
            legacy_image_display: self.legacy_image_display.clone(),
        }
    }
}

impl Default for UiSettings {
    fn default() -> (r: Self)
        ensures
            !r.clock_12h,
            r.show_typing_indicators,
            !r.performance_mode,
            r.legacy_image_display is None,
    {
        UiSettings {
            clock_12h: false,
            show_typing_indicators: true,
            performance_mode: false,
            legacy_image_display: None,
        }
    }
}

#[derive(Debug)]
pub struct AppConfig {
    pub api_base_url: String,
    pub token: Option<String>,
    pub last_server_id: Option<String>,
    pub last_channel_id: Option<String>,
    pub ui: UiSettings,
}

impl Clone for AppConfig {
    fn clone(&self) -> (r: Self)
        ensures
            r == *self,
    {
        AppConfig {
            api_base_url: self.api_base_url.clone(),
            token: self.token.clone(),
            last_server_id: self.last_server_id.clone(),
            last_channel_id: self.last_channel_id.clone(),
            ui: self.ui.clone(),
        }
    }
}

/// The API base URL used when none is configured.
pub fn default_api_base_url() -> (r: String)
    ensures
        r@ == DEFAULT_API_BASE_URL@,
{
    owned(DEFAULT_API_BASE_URL)
}

impl Default for AppConfig {
    fn default() -> (r: Self)
        ensures
            r.api_base_url@ == DEFAULT_API_BASE_URL@,
            r.token is None,
            r.last_server_id is None,
            r.last_channel_id is None,
            !r.ui.clock_12h && r.ui.show_typing_indicators && !r.ui.performance_mode,
    {
        AppConfig {
            api_base_url: default_api_base_url(),
            token: None,
            last_server_id: None,
            last_channel_id: None,
            ui: UiSettings::default(),
        }
    }
}


/// The web app used for the browser login when the service names none.
pub const DEFAULT_WEBAPP_URL: &'static str = "https://fluxer.app";

/// The text without the slashes at its end (as `trim_end_matches('/')`).
pub open spec fn without_trailing_slashes(s: Seq<char>) -> Seq<char>
    decreases s.len(),
{
    if s.len() > 0 && s.last() == '/' {
        without_trailing_slashes(s.drop_last())
    } else {
        s
    }
}

fn strip_trailing_slashes(s: &str) -> (r: String)
    ensures
        r@ == without_trailing_slashes(s@),
{
    let mut v = chars_of(s);
    while v.len() > 0 && v[v.len() - 1] == '/'
        invariant
            without_trailing_slashes(v@) == without_trailing_slashes(s@),
        decreases v@.len(),
    {
        v.pop();
    }
    string_of(v.as_slice())
}

/// The web app's address: the one the service advertises, without trailing
/// slashes, else the default.
pub open spec fn webapp_url_of(advertised: Seq<char>) -> Seq<char> {
    if advertised.len() == 0 {
        DEFAULT_WEBAPP_URL@
    } else {
        without_trailing_slashes(advertised)
    }
}

/// The web app's address from what the service advertises (empty when it
/// names none).
pub fn webapp_url(advertised: &str) -> (r: String)
    ensures
        r@ == webapp_url_of(advertised@),
{
    if chars_of(advertised).len() == 0 {
        owned(DEFAULT_WEBAPP_URL)
    } else {
        strip_trailing_slashes(advertised)
    }
}

/// The gateway address to connect to: the base without trailing slashes,
/// asking for version 1 of the protocol in JSON.
pub open spec fn gateway_connect_url_of(base: Seq<char>) -> Seq<char> {
    without_trailing_slashes(base) + "/?v=1&encoding=json"@
}

/// The gateway address to connect to for a gateway base address.
pub fn gateway_connect_url(base: &str) -> (r: String)
    ensures
        r@ == gateway_connect_url_of(base@),
{
    let mut s = strip_trailing_slashes(base);
    s.append("/?v=1&encoding=json");
    s
}

} // verus!

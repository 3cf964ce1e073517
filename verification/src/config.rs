//! Client configuration: which cloud environment the client talks to and how
//! it identifies itself.

use vstd::prelude::*;

verus! {

/// Cloud environment / region.
#[derive(Debug, Clone, Copy, PartialEq, Eq, Structural)]
pub enum Region {
    /// Global / OverSea: `openapi-g.insta360.com`.
    Global,
    /// Mainland China: `openapi.insta360.com`.
    Cn,
    /// Test environment: `openapi-test.insta360.com`.
    Test,
}

impl Default for Region {
    fn default() -> (r: Region)
        ensures
            r == Region::Global,
    {
        Region::Global
    }
}

/// The account/app API origin of a region.
pub open spec fn spec_openapi_base(r: Region) -> Seq<char> {
    match r {
        Region::Global => "https://openapi-g.insta360.com"@,
        Region::Cn => "https://openapi.insta360.com"@,
        Region::Test => "https://openapi-test.insta360.com"@,
    }
}

/// The cloud media API origin of a region.
pub open spec fn spec_cloud_base(r: Region) -> Seq<char> {
    match r {
        Region::Global => "https://service-fra.insta360.com"@,
        Region::Cn => "https://service.insta360.com"@,
        Region::Test => "https://service-test.insta360.com"@,
    }
}

/// The `X-MainLand` flag of a region.
pub open spec fn spec_mainland_flag(r: Region) -> Seq<char> {
    match r {
        Region::Cn => "1"@,
        _ => "0"@,
    }
}

impl Region {
    /// Base origin for the account/app API (`/account/*`, `/app/*`).
    pub fn openapi_base(self) -> (s: &'static str)
        ensures
            s@ == spec_openapi_base(self),
    {
        match self {
            Region::Global => "https://openapi-g.insta360.com",
            Region::Cn => "https://openapi.insta360.com",
            Region::Test => "https://openapi-test.insta360.com",
        }
    }
}

impl Region {
    /// Base origin for the cloud media API (`/cloud/service/*`), a different
    /// host from the account API.
    pub fn cloud_base(self) -> (s: &'static str)
        ensures
            s@ == spec_cloud_base(self),
    {
        match self {
            Region::Global => "https://service-fra.insta360.com",
            Region::Cn => "https://service.insta360.com",
            Region::Test => "https://service-test.insta360.com",
        }
    }

    /// Value sent in the `X-MainLand` header (`1` for CN, `0` otherwise).
    pub fn mainland_flag(self) -> (s: &'static str)
        ensures
            s@ == spec_mainland_flag(self),
    {
        match self {
            Region::Cn => "1",
            _ => "0",
        }
    }
}

/// The platform value sent in `x-insta360-platform`.
#[derive(Debug, Clone, Copy, PartialEq, Eq, Structural)]
pub enum Platform {
    Windows,
    Android,
}

/// The `x-insta360-platform` value of a platform.
pub open spec fn spec_platform_header(p: Platform) -> Seq<char> {
    match p {
        Platform::Windows => "pc/windows"@,
        Platform::Android => "android"@,
    }
}

impl Platform {
    /// Value for `x-insta360-platform` (the desktop app sends `pc/windows`).
    pub fn header_value(self) -> (s: &'static str)
        ensures
            s@ == spec_platform_header(self),
    {
        match self {
            Platform::Windows => "pc/windows",
            Platform::Android => "android",
        }
    }
}

/// Static client identity and request-signing material.
///
/// `app_key`, `client_id` and `sign_key` are not known constants: they
/// default to empty, and signing fails until they are filled in.
#[derive(Debug, Clone)]
pub struct ClientConfig {
    pub region: Region,
    pub platform: Platform,
    /// `X-APP-VERSION`.
    pub app_version: String,
    /// `X-APP` — short app identifier.
    pub app_id: String,
    /// `app_traffic` header — release channel.
    pub app_traffic: String,
    /// `X-Client-Id`.
    pub client_id: String,
    /// `X-MCS-AppKey` — the app key sent with signed requests.
    pub app_key: String,
    /// Per-install `X-Equipment-Code`, persisted by the caller across runs.
    pub equipment_code: String,
    /// UI language sent as `X-Language`.
    pub language: String,
    /// HMAC key for request signing.
    pub sign_key: String,
    /// `User-Agent` header.
    pub user_agent: String,
}

impl ClientConfig {
    /// Whether the fields required to sign a request are populated.
    pub open spec fn spec_can_sign(&self) -> bool {
        self.app_key@.len() > 0 && self.sign_key@.len() > 0
    }

    /// The skeleton configuration of the desktop client: identity and
    /// signing fields are blank.
    pub open spec fn spec_windows(&self, region: Region) -> bool {
        &&& self.region == region
        &&& self.platform == Platform::Windows
        &&& self.app_version@ == "6.0.2"@
        &&& self.app_id@ == "studio_win"@
        &&& self.app_traffic@ == "release"@
        &&& self.client_id@ == Seq::<char>::empty()
        &&& self.app_key@ == Seq::<char>::empty()
        &&& self.equipment_code@ == Seq::<char>::empty()
        &&& self.language@ == "en"@
        &&& self.sign_key@ == Seq::<char>::empty()
        &&& self.user_agent@ == "insta360/studio"@
    }

    /// A skeleton config for the desktop (`windows`) client. Identity and
    /// signing fields are blank and must be filled in before signed
    /// endpoints work; token import and downloads work without them.
    pub fn windows(region: Region) -> (c: ClientConfig)
        ensures
            c.spec_windows(region),
    {
        ClientConfig {
            region,
            platform: Platform::Windows,
            app_version: "6.0.2".to_owned(),
            app_id: "studio_win".to_owned(),
            app_traffic: "release".to_owned(),
            client_id: String::new(),
            app_key: String::new(),
            equipment_code: String::new(),
            language: "en".to_owned(),
            sign_key: String::new(),
            user_agent: "insta360/studio".to_owned(),
        }
    }

    /// True once the fields required to sign an API request are populated.
    pub fn can_sign(&self) -> (r: bool)
        ensures
            r == self.spec_can_sign(),
    {
        !self.app_key.as_str().is_empty() && !self.sign_key.as_str().is_empty()
    }
}

} // verus!

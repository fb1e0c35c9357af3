//! What is reported of the desktop application: whether it is installed,
//! whether a request to it went through, and which platforms and keys are
//! known.

use vstd::prelude::*;
use crate::batch::clone_text;
use crate::batch::text_of;
use crate::text::same_text;

verus! {

/// The outcome of a request to the desktop application, as the contracts see
/// it.
pub ghost struct ResultView {
    pub success: bool,
    pub error: Option<Seq<char>>,
}

/// The outcome of a request to the desktop application: success, or the
/// description of what went wrong.
pub struct WhatsAppResult {
    success: bool,
    error: Option<String>,
}

impl View for WhatsAppResult {
    type V = ResultView;

    closed spec fn view(&self) -> ResultView {
        ResultView { success: self.success, error: text_of(self.error) }
    }
}

impl WhatsAppResult {
    /// The result for a request that ended with `outcome`: an error is
    /// carried exactly when the request failed.
    pub fn from_outcome(outcome: Result<(), String>) -> (result: Self)
        ensures
            result@ == match outcome {
                Ok(_) => ResultView { success: true, error: None },
                Err(description) => ResultView { success: false, error: Some(description@) },
            },
    {
        match outcome {
            Ok(_) => Self { success: true, error: None },
            Err(description) => Self { success: false, error: Some(description) },
        }
    }

    /// Whether the request went through.
    pub fn success(&self) -> (success: bool)
        ensures
            success == self@.success,
    {
        self.success
    }

    /// The description of the failure, if there was one.
    pub fn error(&self) -> (error: Option<String>)
        ensures
            text_of(error) == self@.error,
    {
        clone_text(&self.error)
    }
}

/// What is known of the installation, as the contracts see it.
pub ghost struct InstallationView {
    pub is_installed: bool,
    pub platform: Seq<char>,
    pub whatsapp_path: Option<Seq<char>>,
}

/// What is known of the installation of the desktop application.
pub struct InstallationInfo {
    is_installed: bool,
    platform: String,
    whatsapp_path: Option<String>,
}

impl View for InstallationInfo {
    type V = InstallationView;

    closed spec fn view(&self) -> InstallationView {
        InstallationView {
            is_installed: self.is_installed,
            platform: self.platform@,
            whatsapp_path: text_of(self.whatsapp_path),
        }
    }
}

impl InstallationInfo {
    /// The information for `platform` after a check that ended with
    /// `check`: a check that failed counts as "not installed". No path is
    /// reported.
    pub fn from_check(platform: String, check: Result<bool, String>) -> (info: Self)
        ensures
            info@ == (InstallationView {
                is_installed: check == Ok::<bool, String>(true),
                platform: platform@,
                whatsapp_path: None,
            }),
    {
        let is_installed = match check {
            Ok(found) => found,
            Err(_) => false,
        };
        Self { is_installed, platform, whatsapp_path: None }
    }

    /// Whether the application was found.
    pub fn is_installed(&self) -> (installed: bool)
        ensures
            installed == self@.is_installed,
    {
        self.is_installed
    }

    /// The name of the platform.
    pub fn platform(&self) -> (platform: String)
        ensures
            platform@ == self@.platform,
    {
        self.platform.clone()
    }

    /// The path of the application, if one is known.
    pub fn whatsapp_path(&self) -> (path: Option<String>)
        ensures
            text_of(path) == self@.whatsapp_path,
    {
        clone_text(&self.whatsapp_path)
    }
}

/// The platforms on which the application is looked for.
#[derive(Clone, Copy, PartialEq, Eq, Structural)]
pub enum Platform {
    Windows,
    MacOs,
    Linux,
    /// Any other platform: the application counts as not installed there.
    Other,
}

/// The platform that goes by `name`.
pub open spec fn platform_spec(name: Seq<char>) -> Platform {
    if name == "windows"@ {
        Platform::Windows
    } else if name == "macos"@ {
        Platform::MacOs
    } else if name == "linux"@ {
        Platform::Linux
    } else {
        Platform::Other
    }
}

/// The platform that goes by `name`.
pub fn platform_of(name: &str) -> (platform: Platform)
    ensures
        platform == platform_spec(name@),
{
    if same_text(name, "windows") {
        Platform::Windows
    } else if same_text(name, "macos") {
        Platform::MacOs
    } else if same_text(name, "linux") {
        Platform::Linux
    } else {
        Platform::Other
    }
}

/// The keys that can be pressed for the user.
#[derive(Clone, Copy, PartialEq, Eq, Structural)]
pub enum Key {
    Enter,
}

/// The key that goes by `name`, if it is one that can be pressed.
pub fn key_of(name: &str) -> (key: Option<Key>)
    ensures
        key == if name@ == "Enter"@ {
            Some(Key::Enter)
        } else {
            None
        },
{
    if same_text(name, "Enter") {
        Some(Key::Enter)
    } else {
        None
    }
}

} // verus!

//! Configuration data the caller keeps for the engine.
//!
//! These records carry what the presentation and persistence layer hands
//! the engine: the saves the user named and the connection details of the
//! remote store.  Loading and storing them is the caller's business.

use vstd::prelude::*;

verus! {

/// One save as the user edits it: a display name and the local directory.
#[derive(Clone)]
pub struct SaveUI {
    pub name: String,
    pub path: String,
}

/// How to reach the remote store.
#[derive(Clone)]
pub struct FtpDetails {
    pub ip: String,
    pub user: String,
    pub passwd: String,
    pub port: u16,
}

/// The persisted configuration: the chosen server kind, the connection
/// details, and the saves.
pub struct Json {
    pub server: String,
    pub ftp_config: FtpDetails,
    pub saves: Vec<SaveUI>,
}

impl Default for Json {
    /// An empty configuration pointing at an FTP server on its usual
    /// port.
    fn default() -> (r: Json)
        ensures
            r.server@ == "ftp"@,
            r.ftp_config.ip@ == ""@,
            r.ftp_config.user@ == ""@,
            r.ftp_config.passwd@ == ""@,
            r.ftp_config.port == 21,
            r.saves@.len() == 0,
    {
        Json {
            server: "ftp".to_owned(),
            ftp_config: FtpDetails {
                ip: "".to_owned(),
                user: "".to_owned(),
                passwd: "".to_owned(),
                port: 21,
            },
            saves: Vec::new(),
        }
    }
}

/// The settings panel's editable copy of the connection details.
pub struct FTPSettings {
    pub ip: String,
    pub user: String,
    pub password: String,
    pub port: u16,
}

/// The number of tabs the settings window offers.
pub const SETTINGS_TABS: usize = 3;

/// The settings window's state: whether it is open, and which of its tabs
/// shows.  The tab index always names an existing tab.
pub struct SettingsWindow {
    pub open: bool,
    pub tab: usize,
}

impl SettingsWindow {
    /// The tab index names an existing tab.
    pub open spec fn wf(self) -> bool {
        self.tab < SETTINGS_TABS
    }

    /// Shows another tab.
    pub fn select_tab(&mut self, tab: usize)
        requires
            tab < SETTINGS_TABS,
        ensures
            final(self).wf(),
            final(self).tab == tab,
            final(self).open == old(self).open,
    {
        self.tab = tab;
    }

    /// Opens or closes the window.
    pub fn set_open(&mut self, open: bool)
        ensures
            final(self).open == open,
            final(self).tab == old(self).tab,
    {
        self.open = open;
    }
}

impl Default for SettingsWindow {
    /// A closed window showing the first tab.
    fn default() -> (r: SettingsWindow)
        ensures
            r.wf(),
            !r.open,
            r.tab == 0,
    {
        SettingsWindow { open: false, tab: 0 }
    }
}

} // verus!

//! The app's persisted settings and the store that holds them in memory.
use vstd::prelude::*;
use crate::text::{chars_of, string_of};

verus! {

/// Preferences kept between sessions.
#[derive(Debug, Clone)]
pub struct AppSettings {
    pub last_view: String,
    pub browse_section: String,
    pub browse_only_new: bool,
    pub lingq_collection_id: Option<i64>,
}

impl Default for AppSettings {
    fn default() -> (res: AppSettings)
        ensures
            res.last_view@ == "browse"@,
            res.browse_section@ == "essays"@,
            res.browse_only_new,
            res.lingq_collection_id is None,
    {
        AppSettings {
            last_view: string_of(&chars_of("browse")),
            browse_section: string_of(&chars_of("essays")),
            browse_only_new: true,
            lingq_collection_id: None,
        }
    }
}

/// The settings and the file they are kept in.
pub struct SettingsStore {
    pub path: String,
    pub data: AppSettings,
}

impl SettingsStore {
    /// A store for `data` kept at `path`.
    pub fn from_parts(path: String, data: AppSettings) -> (res: SettingsStore)
        ensures
            res.path == path,
            res.data == data,
    {
        SettingsStore { path, data }
    }

    /// The current settings.
    pub fn data(&self) -> (res: &AppSettings)
        ensures
            *res == self.data,
    {
        &self.data
    }

    /// A store at `path` holding the default settings.
    pub fn create_default(path: String) -> (res: SettingsStore)
        ensures
            res.path == path,
            res.data.last_view@ == "browse"@,
            res.data.browse_section@ == "essays"@,
            res.data.browse_only_new,
            res.data.lingq_collection_id is None,
    {
        SettingsStore { path, data: AppSettings::default() }
    }
}

} // verus!

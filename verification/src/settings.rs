//! The application settings document and its defaulting rules.

use vstd::prelude::*;
use vstd::string::StringExecFns;

verus! {

/// The persisted settings: whether the application starts with the
/// OS session, and how verbosely jobs are logged.  Fields absent from
/// the document read as `None` until defaulted.
pub struct SettingsJSON {
    pub run_on_startup: Option<bool>,
    pub log_level: Option<String>,
}

/// Mathematical view of a [`SettingsJSON`].
pub struct SettingsView {
    pub run_on_startup: Option<bool>,
    pub log_level: Option<Seq<char>>,
}

impl View for SettingsJSON {
    type V = SettingsView;

    open spec fn view(&self) -> SettingsView {
        SettingsView { run_on_startup: self.run_on_startup, log_level: self.log_level.deep_view() }
    }
}

impl DeepView for SettingsJSON {
    type V = SettingsView;

    open spec fn deep_view(&self) -> SettingsView {
        self.view()
    }
}

impl Clone for SettingsJSON {
    fn clone(&self) -> (res: Self)
        ensures
            res@ == self@,
    {
        let log_level = match &self.log_level {
            Option::Some(l) => Option::Some(l.clone()),
            Option::None => Option::None,
        };
        SettingsJSON { run_on_startup: self.run_on_startup, log_level }
    }
}

/// Fills every absent setting with its default: starting with the OS
/// session on, and the `low` log level.  Present settings are kept.
pub fn fill_default_settings(settings: &mut SettingsJSON)
    ensures
        final(settings)@.run_on_startup == (if old(settings)@.run_on_startup is None {
            Option::Some(true)
        } else {
            old(settings)@.run_on_startup
        }),
        final(settings)@.log_level == (if old(settings)@.log_level is None {
            Option::Some("low"@)
        } else {
            old(settings)@.log_level
        }),
{
    if settings.run_on_startup.is_none() {
        settings.run_on_startup = Option::Some(true);
    }
    if settings.log_level.is_none() {
        settings.log_level = Option::Some(String::from_str("low"));
    }
}

} // verus!

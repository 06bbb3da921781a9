//! The state of the settings menu.
use vstd::prelude::*;

verus! {

/// The mathematical value of the settings menu.
pub struct SettingsModel {
    pub display_name: Seq<char>,
    pub saving_name: bool,
    pub key_path: Seq<char>,
    pub key_password: Seq<char>,
}

impl SettingsModel {
    /// The menu as it opens.
    pub open spec fn empty() -> SettingsModel {
        SettingsModel {
            display_name: Seq::empty(),
            saving_name: false,
            key_path: Seq::empty(),
            key_password: Seq::empty(),
        }
    }
}

/// Settings menu
#[derive(Debug)]
pub struct SettingsView {
    /// Display name to set
    pub display_name: String,
    /// Are we saving the display name?
    pub saving_name: bool,
    /// Path to import encryption keys from
    pub key_path: String,
    /// Password to decrypt the keys with
    pub key_password: String,
}

impl View for SettingsView {
    type V = SettingsModel;

    open spec fn view(&self) -> SettingsModel {
        SettingsModel {
            display_name: self.display_name@,
            saving_name: self.saving_name,
            key_path: self.key_path@,
            key_password: self.key_password@,
        }
    }
}

impl SettingsView {
    /// The menu as it opens: every field empty, nothing being saved.
    pub fn new() -> (view: Self)
        ensures
            view@ == SettingsModel::empty(),
    {
        SettingsView {
            display_name: String::new(),
            saving_name: false,
            key_path: String::new(),
            key_password: String::new(),
        }
    }
}

impl Clone for SettingsView {
    fn clone(&self) -> (copy: Self)
        ensures
            copy == *self,
    {
        SettingsView {
            display_name: self.display_name.clone(),
            saving_name: self.saving_name,
            key_path: self.key_path.clone(),
            key_password: self.key_password.clone(),
        }
    }
}

} // verus!

//! Login prompt
use crate::event::{clone_text, text_of};
use vstd::prelude::*;

verus! {

/// Whether the prompt logs in or signs up.
#[derive(Debug, Clone, Copy, PartialEq, Eq, Structural)]
pub enum PromptAction {
    Login,
    Signup,
}

impl Default for PromptAction {
    fn default() -> (action: Self)
        ensures
            action == PromptAction::Login,
    {
        PromptAction::Login
    }
}

/// The mathematical value of the login prompt.
pub struct PromptModel {
    pub user: Seq<char>,
    pub password: Seq<char>,
    pub server: Seq<char>,
    pub device_name: Seq<char>,
    pub action: PromptAction,
    pub error: Option<Seq<char>>,
}

impl PromptModel {
    /// The prompt as it opens, with the message of a failed login if there was one.
    pub open spec fn empty(error: Option<Seq<char>>) -> PromptModel {
        PromptModel {
            user: Seq::empty(),
            password: Seq::empty(),
            server: Seq::empty(),
            device_name: Seq::empty(),
            action: PromptAction::Login,
            error,
        }
    }
}

/// View for the login prompt
#[derive(Debug)]
pub struct PromptView {
    /// Username
    pub user: String,
    /// Password
    pub password: String,
    /// Homeserver
    pub server: String,
    /// Device name to create login session under
    pub device_name: String,
    /// Whether to log in or sign up
    pub action: PromptAction,
    /// Error message
    pub error: Option<String>,
}

impl View for PromptView {
    type V = PromptModel;

    open spec fn view(&self) -> PromptModel {
        PromptModel {
            user: self.user@,
            password: self.password@,
            server: self.server@,
            device_name: self.device_name@,
            action: self.action,
            error: text_of(self.error),
        }
    }
}

impl PromptView {
    /// The prompt as it opens: every field empty, set to log in.
    pub fn new() -> (view: Self)
        ensures
            view@ == PromptModel::empty(None),
    {
        PromptView::with_error(None)
    }

    /// The prompt as it opens after a login that failed.
    pub fn with_error(error: Option<String>) -> (view: Self)
        ensures
            view@ == PromptModel::empty(text_of(error)),
    {
        PromptView {
            user: String::new(),
            password: String::new(),
            server: String::new(),
            device_name: String::new(),
            action: PromptAction::Login,
            error,
        }
    }
}

impl Clone for PromptView {
    fn clone(&self) -> (copy: Self)
        ensures
            copy == *self,
    {
        PromptView {
            user: self.user.clone(),
            password: self.password.clone(),
            server: self.server.clone(),
            device_name: self.device_name.clone(),
            action: self.action,
            error: clone_text(&self.error),
        }
    }
}

} // verus!

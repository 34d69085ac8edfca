pub mod action_convert;
pub mod action_editheader;
pub mod action_flags;
pub mod action_mime;
pub mod action_notify;
pub mod action_redirect;
pub mod action_set;
pub mod action_vacation;
pub mod set;

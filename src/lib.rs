//! The coordination core of a text input service, and the context store of stories.
//!
//! `ime_service` keeps which editing session is active, the keyboard visibility flag and its
//! subscribers, and the context listeners, and decides for each key event whether a context
//! listener or the session's default editing handles it. The caller performs the sends and
//! reports their outcomes; subscribers whose send fails are pruned (`listener_registry`).
//! `ime_lemmas` states the laws that hold over runs of these operations.
//!
//! `story_context_store` records which module parameter of which story claims which entity
//! reference.

use vstd::prelude::*;

pub mod ime_lemmas;
pub mod ime_service;
pub mod listener_registry;
pub mod story_context_store;

verus! {

} // verus!

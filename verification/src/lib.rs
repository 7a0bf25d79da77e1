//! The logic of a video player for language learners.
//!
//! At its heart is the retrieval of captions: given the caption tracks that a
//! video offers, the library picks the track for the most preferred language
//! ([`language`]), decides what to try next when a fetch fails ([`fallback`],
//! [`fetch`]), turns the timed-text payload of a track into time-stamped
//! units ([`payload`]), tells rolling, automatically generated tracks from
//! authored ones ([`detect`]), and joins the fragments of a rolling track
//! into whole lines ([`merge`]). [`transcript`] runs a payload through all of
//! it.
//!
//! Around that stand the small rules of the player's other services: media
//! carried in data URLs ([`media`]), the answers of the subtitle search
//! ([`opensubtitles`]) and of the account service ([`account`]), and the
//! instructions for the language assistant ([`prompt`]).
//!
//! All times are whole milliseconds. The library makes no request and
//! touches no file: whoever uses it does that, and hands over plain values.

pub mod account;
pub mod detect;
pub mod error;
pub mod fallback;
pub mod fetch;
pub mod json;
pub mod language;
pub mod media;
pub mod merge;
pub mod opensubtitles;
pub mod payload;
pub mod prompt;
pub mod subtitle;
pub mod text;
pub mod transcript;

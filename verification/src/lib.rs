//! Relative-time text for elapsed durations.
//!
//! An elapsed duration, in whole seconds, is split greedily into
//! calendar-like units of fixed approximate length and rendered either as
//! English prose ("1 day and 6 hours") or as compact tokens ("1d 6h").
//!
//! [`humanize::humanize`] does both steps at once;
//! [`decomposition::decompose`] and [`render::render`] are the steps.
//! [`timestamp::humanize_timestamp`] starts from a written timestamp and
//! the present moment instead of a duration.
//!
//! The text carries a magnitude and never a direction: a moment ahead
//! reads like one equally far behind.
//!
//! Besides the functions, the modules state what holds of them:
//! [`greedy`] of the split, [`compact`] and [`prose`] of the two wordings,
//! [`reading`] of how a part is told from its text, and [`neutral`] of the
//! absence of tense. [`trusted`] holds what is believed without proof.
pub mod compact;
pub mod decimal;
pub mod decomposition;
pub mod greedy;
pub mod humanize;
pub mod neutral;
pub mod prose;
pub mod reading;
pub mod render;
pub mod text;
pub mod timestamp;
pub mod trusted;
pub mod unit;

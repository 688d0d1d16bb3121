//! A small CSS dialect parser and style-resolution core.
//!
//! A stylesheet is parsed in one pass into a flat list of rules, each pairing
//! a selector with a single typed declaration.  A declaration is either a
//! fixed value or a dynamic reference `[[ id | default ]]` that can be
//! overridden per frame through a transient override table.

pub mod strutil;
pub mod props;
pub mod dynamic;
pub mod overrides;
pub mod token;
pub mod css;

//! A library of media assets: pictures, videos and texts that are imported, found again and
//! pasted into other programs.
//!
//! - The assets and how they are found: [`domain`], [`index`], [`bitmap`], [`view`].
//! - How they come in: [`media`], [`rules`], [`digest`], [`phash`], [`import`], [`library`],
//!   [`intake`], [`report`].
//! - How they leave: [`trash`], [`commands`], [`upkeep`].
//! - How they are pasted: [`negotiate`], [`paste`], [`feedback`].
//! - How they are shown: [`thumbs`], [`recent`], [`cards`], [`ui_enums`], [`bench`], [`demo`].
//! - The program around them: [`args`], [`startup`], [`task`], [`logging`], [`update`].
//! - What all of these build on: [`text`], [`fields`], [`digits`], [`order`], [`paths`],
//!   [`calendar`].
//!
//! Whatever touches files, windows, the network or other processes is left to the caller: a
//! type such as [`import::ImportRun`] or [`paste::TargetRun`] says what to do next and takes
//! what came of it.

use vstd::prelude::*;

pub mod args;
pub mod bench;
pub mod bitmap;
pub mod calendar;
pub mod cards;
pub mod commands;
pub mod demo;
pub mod digest;
pub mod digits;
pub mod domain;
pub mod feedback;
pub mod fields;
pub mod import;
pub mod index;
pub mod intake;
pub mod library;
pub mod logging;
pub mod media;
pub mod negotiate;
pub mod order;
pub mod paste;
pub mod paths;
pub mod phash;
pub mod recent;
pub mod report;
pub mod rules;
pub mod startup;
pub mod task;
pub mod text;
pub mod thumbs;
pub mod trash;
pub mod ui_enums;
pub mod update;
pub mod upkeep;
pub mod view;

verus! {

} // verus!

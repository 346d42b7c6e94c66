//! Retained-mode UI reconciliation core.
//!
//! A declarative widget tree is expanded, pass after pass, into a tree of layout
//! primitives. Every composite widget gets an identity derived from its position,
//! and the per-identity stores (state, animations, messages, teardown hooks) follow
//! that identity across passes. After expansion, portal boxes are moved under the
//! widgets that own them.
//!
//! * [`widget`] holds the identities, the declarative nodes, the layout
//!   primitives and what processors are handed.
//! * [`reconcile`] is the walk that expands a declarative tree.
//! * [`teleport`] moves the content of portal boxes to their owners.
//! * [`application`] holds the trees and the stores, decides whether a pass is
//!   needed, and runs it.
//! * [`store`], [`props`], [`state`], [`messenger`], [`signals`] and
//!   [`animator`] are what the stores and the contexts are made of.
//!
//! Contracts speak of trees through their shapes: every tree type has a
//! `model` that holds sequences where the tree holds vectors, and the text of
//! identities where the tree holds identities. Processors and hooks are values
//! of a type that implements [`widget::WidgetProcessor`]; nothing is assumed
//! of what they do, so what is promised of a pass holds whatever they do.
//!
//! Lengths are whole numbers of layout units, and animations last a whole
//! number of ticks.

pub mod animator;
pub mod application;
pub mod measure;
pub mod messenger;
pub mod props;
pub mod reconcile;
pub mod signals;
pub mod state;
pub mod store;
pub mod teleport;
pub mod widget;

use vstd::prelude::*;

verus! {

/// A length or a position, in layout units.
pub type Scalar = i32;

/// A signed count.
pub type Integer = i32;

/// An unsigned count.
pub type UnsignedInteger = u32;

} // verus!

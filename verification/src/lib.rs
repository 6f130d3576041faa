//! Verified core of a small parametric UI toolkit: the component catalogue,
//! split-layout axis selection, property hooks and the construction of a
//! component tree from a screen description.

pub mod components;
pub mod hooks;
pub mod json;
pub mod layout;
pub mod tree;

pub use components::{children_within_limit, instance_data, GroupingBox, Spacer, Split};
pub use hooks::{add_hook, apply_hooks, has_hooks, hooks_for, Hooks};
pub use json::JsonObject;
pub use layout::{Axis, SplitDirection, SplitMode, Vec2};
pub use tree::{describe, BuildOutcome, Manager, ScreenNode, TreeNode};

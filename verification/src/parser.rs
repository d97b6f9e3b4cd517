//! The description of a machine as written: the tree that parsing builds.

pub mod guard;
pub mod input;
pub mod match_arm;
pub mod output;
pub mod sm_def_attr;
pub mod state_machine_def;
pub mod transition;

pub use guard::{BindingGuard, BindingGuardView, Guard, GuardExpr, GuardExprView, GuardView};
pub use input::{InputVariant, InputVariantView};
pub use match_arm::{MatchArm, MatchArmView};
pub use output::{OutputSpec, OutputSpecView};
pub use sm_def_attr::{SMDefAttr, SMDefAttrView};
pub use state_machine_def::{StateMachineDef, StateMachineDefView};
pub use transition::{TransitionDef, TransitionDefView, TransitionEntry, TransitionEntryView};

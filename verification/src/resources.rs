//! Player resource counts with optional lower and upper caps.
pub use crate::components::resource::{
    InvalidAddition, InvalidSet, InvalidSoftCapAdjustment, InvalidSubtraction, Resource,
};

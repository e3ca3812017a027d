//! The items that a caller of the crate needs most.

pub use crate::data::base::DataInfo;
pub use crate::data::descriptive::DescriptiveAnalysis;
pub use crate::data::missing_values::MissingValueAnalysis;
pub use crate::report::pdf::PageManager;
pub use crate::{LeadsError, LeadsResult};

//! The dataset: what is known of it once it has been read and analysed.

pub mod base;
pub mod descriptive;
pub mod load;
pub mod missing_values;
pub mod visualizations;
pub mod viz_lib;

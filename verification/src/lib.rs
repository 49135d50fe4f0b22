//! Preparation of elastic-wave forward-modelling runs: grid (GRD) and
//! shot-record (CDP) file formats, the parameter files of the modelling
//! program, and the naming of model directories.

pub mod text;
pub mod decimal;
pub mod bytes;
pub mod matrix;
pub mod grd;
pub mod seg;
pub mod forward;
pub mod counter;

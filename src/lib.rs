//! Box-plot statistics: quartiles by the nearest-rank-floor rule, whisker ends and
//! outliers of a sample set, as data for a renderer.
//!
//! `quantile::compute` sorts the samples and picks the quartiles; the caller derives
//! the fences from them; `geometry::build` then finds the whisker ends and the
//! outliers. Samples are order keys (see `order_key`).
pub mod geometry;
pub mod laws;
pub mod order_key;
pub mod quantile;
pub mod sorting;

//! Carbon-footprint auditing of web pages: the EcoIndex score, its grade,
//! the carbon estimate from a country's energy mix, and the classification
//! of a page's heaviest resources.

pub mod country_data;
pub mod ecoindex;
pub mod heaviest;
pub mod laws;
pub mod report;
pub mod scan;
pub mod text;


//! Generation of TypeScript declaration files from the symbols of a UI5
//! `api.json` document.
pub mod driver;
pub mod laws;
pub mod model;
pub mod text;
pub mod typescript;

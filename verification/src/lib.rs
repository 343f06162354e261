//! Verified core of the Nix Software Center: URI schemes, AppStream data
//! handling, text normalisation, licenses, search ranking and the decision
//! logic of the pages.

pub mod scheme;
pub mod text;
pub mod html_lead;
pub mod packages;
pub mod license;
pub mod package;
pub mod package_page;
pub mod details;
pub mod search;
pub mod system;
pub mod installed;
pub mod update;
pub mod carousel;
pub mod release;
pub mod browse;
pub mod provider;
pub mod preferences;
pub mod screenshots;
pub mod window;

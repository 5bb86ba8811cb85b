//! Grade projection and assignment resolution engine for a course-management
//! portal client.
//!
//! The library models one scraped assignment as an [`assignment::Assignment`],
//! projects course grades under best/worst-case assumptions about ungraded
//! work ([`grade`]), decides lateness ([`assignment`]), resolves a free-text
//! query to a ranked list of ungraded assignments ([`resolver`]), and walks
//! that list through an interactive yes/no confirmation state machine
//! ([`workflow`]). Scraping, credentials and network submission are outside
//! collaborators: they hand the engine plain values and take plain values
//! back.

pub mod assignment;
pub mod course;
pub mod errors;
pub mod fraction;
pub mod grade;
pub mod resolver;
pub mod text;
pub mod workflow;

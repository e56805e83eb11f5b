//! A venue's public schedule on the GoOut events platform, projected into
//! calendar events.

pub mod extract;
pub mod goout;
pub mod ical;

//! Calendar dates with an attached time zone offset, on the proleptic Gregorian calendar.
pub mod calendar;
pub mod clock;
pub mod date;
pub mod date_hash;
pub mod date_order;
pub mod datetime;
pub mod duration;
pub mod format;
pub mod format_laws;
pub mod laws;
pub mod naive_date;
pub mod naive_time;
pub mod offset;

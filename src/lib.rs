//! Synthesis plan for Emergency Alert System warnings encoded with the
//! Specific Area Message Encoding (SAME) protocol.
pub mod afsk;
pub mod tone;
pub mod attention;
pub mod section;
pub mod header;
pub mod warning;

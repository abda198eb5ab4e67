pub mod checksum;
pub mod params;
pub mod stretch;

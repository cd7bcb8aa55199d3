pub mod err;
pub mod response;
pub mod request;
pub mod crc;
pub mod jobs;

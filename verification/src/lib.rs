pub mod bitmap;
pub mod calendar;
pub mod clock;
pub mod endpoints;
pub mod feeds;
pub mod json;
pub mod photo;
pub mod photomanager;
pub mod rotation;
pub mod spaceweathermanager;
pub mod text;

//! Backend-neutral Wi-Fi station control: the value types every platform speaks, and the verified
//! logic that turns raw OS readings into them.
pub mod text;
pub mod types;
pub mod conv;
pub mod profile;
pub mod wlan;
pub mod connectivity;
pub mod radio;
pub mod ipconfig;
pub mod dummy;
pub mod linux;

//! Smart garden controller logic: routing of MQTT topics, the watering
//! schedule records, the picture of the device's address shown on the OLED
//! display, and the decisions of the connection and display set-up loops.

pub mod decimal;
pub mod models;
pub mod message;
pub mod router;
pub mod mqtt_listener;
pub mod qr_fit;
pub mod display;
pub mod test_display;
pub mod ip_poller;
pub mod init;

//! Message framing and request routing for a Modbus-RTU UPS manager that
//! answers MQTT requests.

pub mod modbus;
pub mod app;
pub mod mqtt;

pub mod names;
pub mod paths;
pub mod udp;
pub mod simd;
pub mod lua_host;
pub mod text;
pub mod usb;
pub mod device;
pub mod scheduler;
pub mod clock;
pub mod acr;
pub mod games;
pub mod cli;
pub mod tach;
pub mod tach_laws;
pub mod serial;
pub mod serial_laws;
pub mod simdata;
pub mod telemetry;
pub mod transport;
pub mod control;
pub mod log;
pub mod haptic;
pub mod tyres;
pub mod sound_host;
pub mod testmode;
pub mod devices;
pub mod scenarios;
pub mod capture;
pub mod play;
pub mod loader;
pub mod test_script;

//! Core logic of the bloop backing looper: the framing of BLE messages,
//! the settings editor's state, preference validation and the other
//! decisions the audio server makes on plain values.

pub mod framing;
pub mod framing_laws;
pub mod text;
pub mod messages;
pub mod preferences;
pub mod device_option;
pub mod settings;
pub mod settings_laws;
pub mod midi;
pub mod playback;
pub mod waveform;
pub mod logger;
pub mod audio;
pub mod client;
pub mod switch;
pub mod project_store;
pub mod ui;
pub mod ids;
pub mod ble_link;
pub mod controller;
pub mod network;
pub mod waveform_store;
pub mod laws;
pub mod response;

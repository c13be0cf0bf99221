use vstd::prelude::*;

pub mod alarm_limits;
pub mod ble_address;
pub mod ble_error;
pub mod buffer;
pub mod color_scheme;
pub mod command;
pub mod controls;
pub mod data_buf;
pub mod delta;
pub mod device_info;
pub mod device_model;
pub mod dosimeter;
pub mod error;
pub mod library_meta;
pub mod monitor;
pub mod paths;
pub mod peak;
pub mod pc_alarm;
pub mod rate_units;
pub mod recording_search;
pub mod rssi;
pub mod scale;
pub mod scan;
pub mod selection;
pub mod session_restore;
pub mod settings;
pub mod smooth;
pub mod spectrogram_action;
pub mod spectrogram_controls;
pub mod spectrogram_ingest;
pub mod text;
pub mod text_order;
pub mod view_tab;
pub mod worker;

verus! {

} // verus!

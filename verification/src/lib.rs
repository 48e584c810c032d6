//! Screen capture and encoding pipeline: the decisions, state machines and wire formats of a
//! capture session, each stated as a contract and proved.
//!
//! Everything here works on plain values. Device handles, sockets, threads and the encoders
//! themselves belong to the program around this library.

pub mod bring_up;
pub mod bytes;
pub mod clock;
pub mod command;
pub mod command_laws;
pub mod compositor_laws;
pub mod csc;
pub mod device_laws;
pub mod encode_laws;
pub mod encode_loop;
pub mod encoders;
pub mod gpu;
pub mod input;
pub mod layout;
pub mod layout_laws;
pub mod lifecycle;
pub mod log;
pub mod nvgpufilter;
pub mod pace;
pub mod pipeline;
pub mod pipeline_laws;
pub mod pipewire;
pub mod pipewire_laws;
pub mod pixels;
pub mod pool;
pub mod process;
pub mod recorder;
pub mod recording_sink;
pub mod render;
pub mod render_laws;
pub mod report;
pub mod scene;
pub mod session;
pub mod settings;
pub mod start;
pub mod stats;
pub mod stream_laws;
pub mod text;
pub mod uinput;
pub mod wayland;

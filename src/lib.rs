//! Data and control plane of a remote-operated robot: the packet wire format,
//! the serial radio link and the actuator board's protocol, the video
//! pipeline's colour conversion, frame intake and codec status handling,
//! still photos, the relay's decisions, the console's command logic and the
//! control primitives, each stated and proved.
pub mod bytes;
pub mod packet;
pub mod control;
pub mod radio;
pub mod video;
pub mod relay;
pub mod actuator;
pub mod photo;
pub mod console;

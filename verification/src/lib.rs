//! Platform-independent core of a mobile platform layer: runtime target
//! detection, touch-stream ownership, window handle registries, task queues
//! and small geometry rules, each stated and proved with Verus.

pub mod callback;
pub mod dispatcher;
pub mod display;
pub mod gesture_route;
pub mod key_input;
pub mod platform_view;
pub mod sample_ring;
pub mod target_platform;
pub mod text_input;
pub mod touch_gesture;
pub mod weak_ref;
pub mod window_registry;
pub mod window_state;

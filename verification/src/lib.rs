pub mod event;
pub mod intersection;
pub mod line;
pub mod line_segment;
pub mod sweep_line;
pub mod types;

pub mod buffer;
pub mod canvas;
pub mod color;
pub mod fill;
pub mod text;

pub use canvas::lemma_crop_round_trip;
pub use fill::lemma_fill_covers_component;
pub use fill::lemma_fill_exact_component;
pub use fill::lemma_fill_same_color_noop;

pub use canvas::define_distance;
pub use canvas::define_postition;
pub use canvas::two_point_distance_sq;
pub use canvas::Canvas;
pub use canvas::CurrentMode;
pub use canvas::DrawCmd;
pub use canvas::Layer;

pub use buffer::get_content_inside_rect;
pub use buffer::RasterBuffer;
pub use buffer::RectError;
pub use buffer::Snapshot;
pub use color::Color;
pub use fill::fill;
pub use text::match_input;
pub use text::TextData;

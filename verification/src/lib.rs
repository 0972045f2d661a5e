pub mod consts;
pub mod digits;
pub mod model;
pub mod pie;

pub use consts::{
    SCREEN_SIZE, SCREEN_HALF, PIE_RADIUS, PIE_ACCEL, PIE_SPAWN_RATE, PLATE_W, PLATE_H, PLATE_Y,
    DIGITS_LOADED_AT_ONCE, COORD_LIMIT,
};
pub use digits::{parse_digits, SourceError};
pub use model::{Action, InputEvent, Model, Scene};
pub use pie::{Pie, PieModel, PiePlate};

pub mod item_prices;
pub mod multiplier;
pub mod refresh;
pub mod snapshot;
pub mod worlds;
pub mod settings;

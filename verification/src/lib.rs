pub mod text;
pub mod assoc;
pub mod types;
pub mod compression;
pub mod scheduler;
pub mod variables;
pub mod image_match;
pub mod recorder;
pub mod player;
pub mod profiles;
pub mod license;
pub mod window;
pub mod autoclicker;
pub mod script;
pub mod cron;

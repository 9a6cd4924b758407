use vstd::prelude::*;

pub mod chunk;
pub mod editor;
pub mod free_camera;
pub mod game_var;
pub mod grass;
pub mod input;
pub mod load_chunks;
pub mod pick_object;
pub mod player;
pub mod player_input;
pub mod player_ui;
pub mod scene;
pub mod world_mesh;

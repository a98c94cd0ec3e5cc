pub mod chain;
pub mod containers;
pub mod geometry;
pub mod id;
pub mod joint;
pub mod motor_joint;
pub mod prismatic_joint;
pub mod revolute_joint;
pub mod recording;
pub mod scalar;
pub mod sensor;
pub mod shape;
pub mod shape_api;
pub mod snapshot;
pub mod snapshot_bodies;
pub mod snapshot_joints;
pub mod snapshot_shapes;
pub mod snapshot_structs;
pub mod snapshot_tree;
pub mod snapshot_world;
pub mod types;
pub mod world;
pub mod world_hash;
pub mod world_image;
pub mod world_law;
pub mod world_restore;
pub mod write;


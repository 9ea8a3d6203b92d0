pub mod spatial_index;

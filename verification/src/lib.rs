//! Verified CPU-side logic of a wgpu renderer: draw batching, frame-graph
//! validation and resource planning, bind-group caching, upload-ring
//! allocation and input resolution.
pub mod draw_list;
pub mod graph;
pub mod rebuild_bus;
pub mod framegraph;
pub mod passes_graph;
pub mod graph_alloc;
pub mod bindgroups;
pub mod upload;
pub mod voxel_upload;
pub mod controls;
pub mod terrain;
pub mod update;
pub mod rocks;
pub mod passes;
pub mod pipelines;
pub mod input;
pub mod scene;

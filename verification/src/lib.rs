//! Game-unit logic for a real-time strategy prototype: behaviour-tree bangs,
//! unit detection and distillation of detection results, target selection,
//! attack navigation switches and the unit spawn queue.

pub mod entity;
pub mod bang;
pub mod distance_table;
pub mod single_result;
pub mod detection;
pub mod detectors;
pub mod defend;
pub mod navigation;
pub mod spawning;

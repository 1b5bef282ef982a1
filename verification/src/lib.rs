//! The decisions behind a workspace slide: which windows move where, what of them their monitor
//! shows, who owns them, and which window-system call comes next.
pub mod geometry;
pub mod ghost;
pub mod owner;
pub mod create;
pub mod overlay;
pub mod frame;
pub mod task;
pub mod registry;
pub mod settings;
pub mod settle;
pub mod window;
pub mod dispatcher;
pub mod phases;
pub mod run;
pub mod course;
pub mod accounts;
pub mod travel;
pub mod conduct;
pub mod outcome;

use vstd::prelude::*;

pub mod frame;
pub mod pack;
pub mod hardware;
pub mod package;
pub mod persistence;
pub mod auth;
pub mod detection;
pub mod protocol;
pub mod readings;
pub mod remote;
pub mod rendering;
pub mod scene;
pub mod sdk;
pub mod schema;
pub mod sorting;
pub mod startup;
pub mod superwidgets;
pub mod text;
pub mod widgets;

verus! {

} // verus!

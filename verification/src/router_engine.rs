//! The decisions of the router engine.
pub mod local_adress_matcher;
pub mod main_router_engine;
pub mod peer_connection_manager;

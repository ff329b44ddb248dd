//! A reverse-proxy gateway over a set of upstream services described by
//! OpenAPI v3 documents: each document is compiled into anchored route
//! patterns, every request is dispatched to the most specific claiming
//! upstream, and a cron-driven refresh rebuilds the routing table slot by
//! slot without stopping traffic.

pub mod config;
pub mod cron;
pub mod dispatch;
pub mod docs;
pub mod gateway;
pub mod openapi;
pub mod pattern;
pub mod refresh;
pub mod text;
pub mod ui;
pub mod web;

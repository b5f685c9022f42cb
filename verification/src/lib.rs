//! Library core of a web-novel downloader: conversion of saved episodes to
//! Aozora Bunko markup, target parsing, error reports, health checks and the
//! record bookkeeping of a local archive.

pub mod text;
pub mod convert;
pub mod html;
pub mod model;
pub mod aozora;
pub mod diagnostic;
pub mod doctor;
pub mod repair;
pub mod syosetu;
pub mod kakuyomu;
pub mod storage;
pub mod epub;
pub mod summary;
pub mod records;
pub mod config;
pub mod throttle;
pub mod scrape;
pub mod pages;
pub mod menu;
pub mod timestamp;
pub mod database;

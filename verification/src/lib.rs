//! Screen logic of the cyberdeck terminal UI: the Meshtastic wire format,
//! the LoRa and mesh chat models, menu and list navigation, and the small
//! formatting helpers the screens share.

pub mod text;
pub mod proto;
pub mod lora;
pub mod lora_http;
pub mod ui;
pub mod lora_screen;
pub mod mesh;
pub mod chat_view;
pub mod main_menu;
pub mod overworld;
pub mod braille;
pub mod city;
pub mod lists;
pub mod system_screens;
pub mod lines;
pub mod nav_screens;
pub mod files;
pub mod editor;
pub mod intel;
pub mod views;
pub mod wrap;
pub mod transcript;
pub mod panes;

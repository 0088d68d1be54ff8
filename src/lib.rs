//! Bank management, flash engines and boot decision logic of a secure
//! bootloader for microcontrollers with internal and external flash.

pub mod poll;
pub mod error;
pub mod serial;
pub mod spi;
pub mod gpio;
pub mod sector_map;
pub mod mcu_flash;
pub mod micron;
pub mod flash;
pub mod image;
pub mod update_signal;
pub mod boot_manager;
pub mod layout;
pub mod mock;

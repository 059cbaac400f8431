//! The devices that sit on the bus: RAM, the UART transmitter, the screen
//! control registers, and the text-mode display.

pub mod font;
pub mod ram;
pub mod screen_csr;
pub mod textmode;
pub mod uart;

pub use ram::Ram;
pub use screen_csr::ScreenCsr;
pub use textmode::TextMode;
pub use uart::UartNs16550a;

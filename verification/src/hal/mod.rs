//! Hardware abstraction: the board trait and the I²C protocol logic of the
//! generic driver.
pub mod driver;
pub mod megaind;
pub mod relay16;
pub mod traits;

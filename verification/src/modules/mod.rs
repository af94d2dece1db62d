pub mod cpu;
pub mod mem;
pub mod net;
pub mod temp;

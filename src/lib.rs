pub mod chip8;

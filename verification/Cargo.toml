[package]
name = "led_board"
version = "0.1.0"
edition = "2021"
publish = false

[dependencies]
cortex-m-rt = "0.6"
cortex-m-semihosting = "0.3"
panic-halt = "0.2"
stm32f3 = { version = "0.13", features = ["stm32f303", "rt"] }

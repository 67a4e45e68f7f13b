[package]
name = "simcore"
version = "0.1.0"
edition = "2021"
publish = false

[dependencies]
beryllium = "*"
bytemuck = "=1.25.2"
image = "=0.25.10"
log = "=0.4.34"
ogl33 = "=0.2.0"
rand = "*"
rapier2d = "=0.36.0"
tobj = "=4.0.5"
ultraviolet = "=0.10.0"

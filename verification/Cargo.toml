[package]
name = "procstat"
version = "0.1.7"
edition = "2021"
publish = false

[dependencies]
path-clean = "*"
rand = "*"
inotify = "*"
getopts = "*"
home = "*"
libc = "*"
log = "*"
ncurses = "*"
simplelog = "*"
term_size = "*"

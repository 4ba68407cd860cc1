[package]
name = "izhikevich_neurons"
version = "0.1.0"
edition = "2021"
publish = false

[dependencies]
closed01 = "*"
gnuplot = "*"
rand = "*"

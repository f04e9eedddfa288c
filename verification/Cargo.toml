[package]
name = "marine_vessel_simulator"
version = "0.1.0"
edition = "2021"
publish = false

[dependencies]
rand = "*"
year-helper = "*"
csv = "*"
time = "*"
geo = "*"
uom = "*"
plotly = "*"
indicatif = "*"
atty = "*"
copernicusmarine_rs = "*"

# tuxfans

Fan curve controller for TUXEDO laptops, talking to the embedded controller
(EC) through `/dev/tuxedo_io`.

The library (`src/`) holds the logic, each function with its contract and
proof; the program around it (`app/`) does the I/O: the command line, the configuration file, hwmon
sensors, the ioctl calls and systemd.

## Library

- `config`: control modes, fan curves and the default configuration;
  interpolation of a curve at a temperature, with laws that the speed stays
  within the points' speeds, that the curve passes through its points and
  that it never slows the fan on a rising curve.
- `filter`: the median filter over the 13 most recent temperature samples,
  with the law that a minority of outlying samples cannot move the median.
- `controller`: the custom-curve daemon's tick (filter, curve, safety
  floor of 30% at 80°C and 40% at 90°C, falling limiter of 2% per tick
  above 20%) and the EC steps for profiles, the daemon and the fan test.
- `tuxedo`: the ioctl request table, each number proved to be the `_IOC`
  encoding of its documented direction, size, type and command number.
- `cli`: parsing of the subcommands, the service unit text and the
  escaping of the program path inside it.

## Units

Temperatures and curve values are integers in thousandths: thousandths of
a degree Celsius (the unit hwmon reports) and thousandths of a percent.
The configuration file keeps degrees and percent as floating-point
numbers; `app/` converts them to the nearest thousandth.

# mspm0-can

Blocking driver for the MCAN peripheral of MSPM0 microcontrollers, with its
logic verified by Verus.

- `src/` is the verified library. Frames and their form in message RAM are in
  `frame`, identifiers in `id`, the register settings in `setup`. What alternates
  between the hardware and a decision is an operation (`io::Operation`): power-on
  (`poweron`), the change of protected registers (`guarded`), both in sequence
  (`init`), receiving (`rx`), transmitting (`tx`) and bus-off recovery
  (`recovery`). An operation names what to read and answers each value read with
  the commands to perform. `can` is the driver that starts them.
- `app/` runs the operations on a peripheral and gives frames the traits of
  `embedded-can` and `defmt`.
- `tests/` run the library against scripted replies.

The public proof functions named `law_..` state what holds across functions, for
instance that receiving gives back what was sent, or that protected registers are
written only between unlock and lock.

Believed without proof are two functions in `id`: they call `embedded-can` to
tell whether a number fits an identifier.

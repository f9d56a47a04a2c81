# Electrode

The logic of the Electrode ground station, written and proved in Verus.

- `src/` is the library. Every function in it is verified; what it takes from other crates stands
  behind small functions whose contracts say what is believed of them.
- `tests/` runs the library, with the other crates linked.
- `app/` is the program around the library: its command line, the network, files and processes, and
  the arithmetic of the simulated flight.

## Modules

| Modules | What they hold |
| --- | --- |
| `text`, `text_map`, `sorting`, `binary64`, `digest`, `json`, `settings`, `clock` | texts, maps, order, floating-point bit patterns, digests, documents, settings and times |
| `parameters`, `manifest` | which bytes of a firmware image an update may change |
| `tables`, `transfer` | the tables of the update protocol, and the transfer of an image to a vehicle |
| `status`, `upload`, `gate` | uploads from browsers, and what they pass before a transfer |
| `catalog`, `requests`, `limits`, `velocity_budget`, `policy`, `authority` | which commands may reach the vehicle, and in what form |
| `telemetry`, `discovery`, `control`, `bridge`, `session`, `listeners` | telemetry for browsers, and how the network is joined |
| `autopilot`, `sim_bridge`, `manual`, `simulation`, `devices` | the native autopilot, the simulated plant, and the operator's devices |

Floating-point numbers appear in the library as their bit patterns (`Binary64`, `Binary32`), with
the order and the finiteness of the numbers that they stand for.

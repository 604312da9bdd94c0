# phoxal-simulator-webots-controller

The Phoxal Webots controller: the process Webots runs for a simulated robot,
which puts that robot's components on the Phoxal bus.

    phoxal-simulator-webots-controller --bundle-root <DIR> --connect <ENDPOINT>

## Layout

- `src/` holds the controller's rules, verified with Verus. Each function states
  what it returns or changes; the public proof functions, named `law_...`, state
  what holds of several of them together.
  - `sample_schedule`: publish deadlines on a logical timeline.
  - `capabilities`: device cadences, and what each family's readings and commands
    come to.
  - `catalog`: which of a robot's capabilities are simulated.
  - `channel`: which devices and contract serve a capability, and what a step
    asks of it.
  - `motor_channel`: the order in which a motor takes the graph's inputs.
  - `backend`: one advance of the world, publishing a step, leaving the world
    quiet.
  - `runtime`: the step loop.
  - `controller`: whom the process stands in for, and the order of its run.
  - `launch`: the command line.
  - `binary64`: double-precision patterns as exact numbers.
- `app/` is the process around them: `main`, Webots, the bus, signals, threads,
  and floating-point arithmetic.
- `tests/` runs the rules.

## The host and the rules

A rule that needs something done outside hands out an action and waits for the
event that says what came of it. `app/` performs the action. Numbers that the host measures or computes are passed as their bit
patterns, beside any product or quotient that the rule needs.

# rts_units

Verified logic of a real-time strategy prototype built on an ECS game engine
and a 2D physics engine.

- `src/` is the library, verified with Verus:
  - `entity`: entities held by their identifying bits, and the placeholder entity.
  - `bang`: behaviour-tree bang terminals, their propagation to child nodes and
    the flags that ask the tree's root for a reset.
  - `distance_table`: the table of detected entities' distances (a hash map of
    the engine's utilities), with distances held as order-preserving keys.
  - `detection`: circle-intersection unit detectors: target, closest and
    arbitrary unit detection, with and without an additional group filter.
  - `single_result`, `detectors`: detection result components, aggregates and
    distillation of aggregates into single results.
  - `defend`: target selection of defending enemies.
  - `navigation`: the attack-target navigation switch.
  - `spawning`: the first-in, first-out unit spawn queue.
- `app/` wires the library into the engine: components, systems and plugins,
  the physics queries, and the floating-point steering and timing logic.
- `tests/` runs the library on concrete values.

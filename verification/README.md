# bracket

Verified building blocks of a roguelike toolkit, written in Verus.

- `src/geometry`: integer points and rectangles, capsules (which cells lie
  within a radius of a segment) and curves given by control points.
- `src/pathfinding`: breadth-first, Dijkstra and Floyd-Warshall flow maps over
  tiles with integer step costs, their exits, and parallel builds on rayon.
- `src/noise`: the integer and enumerated settings of a noise generator, how
  they are handed to FastNoise Lite, and the coordinate hashes of white noise.
- `src/terminal`: the console grids (dense, sparse and virtual), text
  wrapping, key and mouse-button mapping, window-event decisions, screen
  scaling and frame pacing.

Every function in `src/` is checked by Verus against its `requires` /
`ensures` contract; the proof functions state the laws the pieces keep (for
example that a parallel flow build gives what a sequential one gives, or that
Floyd-Warshall entries are the weights of the lightest paths).

`app/` holds what needs floating point, a window system or a user-supplied
trait: Bezier evaluation, noise sampling, texture coordinates, the frame
driver and the window-system key conversions. `tests/` runs the library.

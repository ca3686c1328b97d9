# particle_shower

A shower of particles that fall from a shower head, collide and merge,
cool down and respawn when they reach the floor, drawn with OpenGL.

`src/` is the verified library:

- `vshader`, `fshader`: the shader sources.
- `particle`: what a particle remembers of the particles it absorbed.
- `strip`: the records of a strip of particles, with the invariant that a
  particle only absorbs particles further along its strip, and the choice of
  the particles drawn each frame.
- `pipeline`: how the particles are shared out into strips, the order in
  which the movement stage hands pairs of strips on, and the collector by which
  the collision and temperature stages pair strip indices, with the proof that
  a frame runs through the whole pipeline.
- `display`: colouring by temperature or by mass.
- `mesh`: the outline of the shower's box.

`app/` is the program: window and event loop, the floating-point motion,
collision geometry and cooling, the worker threads, and the drawing.

# cvitek

An inference backend for the TPU of the Sophgo CV1812CP / SG2000, which runs `.cvimodel` files
through the closed-source `libcviruntime.so`.

`src/` is a library written in Verus. It takes every decision of the backend and proves what it
decides: how a model is loaded (`load`), what is kept of its tensors and how they are found again
(`descriptor`, `names`), how values become bytes and bytes become values (`quantise`, `scale`,
`transfer`, `tensor`), and the two halves of a pass around the runtime's forward call (`pass`,
`backend`). `laws` states what holds of these together. Floats are bit patterns here; a tensor
that is quantised goes in as rounded quotients and comes out as distances from its zero point.

`app/` calls the C interface, divides, rounds and multiplies floats, and holds the lock around a
model handle.

`tests/` runs the library.

# synaptix-kernels-cuda

Launch planning for a CUDA tensor backend, verified with Verus.

A request for an operation (a matrix product, an attention, a norm, a quantisation, a scan) is
checked and turned into a plan: which kernel runs, with which grid, block and shared memory, over
which bytes of which buffers, with which whole numbers beside the buffers, or in which order several
kernels run. Real numbers that a kernel takes (an epsilon, a scale) are handed to it by the caller
and are no part of a plan. Requests that no kernel takes are refused with an error. The plans are
plain values, and what each planning function returns is stated in its contract.

- `src/` is the library. Its modules follow the kernels: `elementwise`, `reduction`, `fused`,
  `scan`, `ssm`, `gemm`, `kernels` and `embed` plan single kernels and sequences of them;
  `cuda_backend` holds the operations of the backend; `tma` keeps copy descriptors in an arena;
  `kernels::compile` decides how kernel sources are compiled and how compiled text is kept on disk.
- `tests/` runs the library on concrete requests.
- `app/` drives the device: it compiles and loads modules, allocates memory and launches what was
  planned. Matrix products on tensor cores, attention and convolutions are run through the trait
  `Engines`.

Besides contracts, the library states laws as proof functions: that launches cover what they are
for and stay inside the buffers, that chunks partition rows, that the fast paths of an operation read
the elements that the strides name, that a product of quantised rows is that of fresh ones, that a
cache entry gives back exactly what was stored under its key, that no slot of the arena is handed out
twice.

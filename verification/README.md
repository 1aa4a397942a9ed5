# embree3

A safe binding to the Embree 3.13.5 ray-tracing kernels, whose core is verified
with Verus.

- `src/` is the verified library. It decides, checks and records: layouts of
  buffers, ownership of geometries, callback slots, packets of rays and hits,
  scenes, the standalone BVH builder. It makes no native call; where one is due it
  returns a `NativeCall`, and where the native reply decides it takes the reply as
  an argument. Real numbers are held by their bit patterns.
- `app/` is the native side: the C declarations, the code that performs each
  `NativeCall`, and the entry points that the C library calls back.
- `tests/` exercises the library; the tests play the part of the native library.

## Where to look

| Module | What it states |
| --- | --- |
| `buffer`, `attachments` | the bytes a layout takes; which slot is bound to what |
| `geometry` | build phase, committed phase, and who may edit |
| `callback`, `args` | which closure and data a native callback finds, and what it may change |
| `ray`, `ray::packet` | lanes of packets in structure-of-arrays layout |
| `scene`, `mask`, `context` | attached geometries, queries, collision |
| `bvh` | the conversation with the native builder, and node handles that are good for one build |
| `interpolate`, `transform`, `aligned` | output layout, plain values, aligned storage |

Laws that relate several functions are the public proof functions named `lemma_*`
at the end of each module.

Two items are trusted: the address of a slice, and the capacity of a vector. Each
says in its doc comment what is claimed.

One `BuildCounter` numbers all BVH builds of a process; `app/` keeps it. The
library's `AlignedVector` skips elements until one is aligned. It is refused where
there is no room for those, and where none can be aligned, which does not happen
for elements whose size is an odd multiple of their own alignment. `app/` has one
that allocates at the alignment asked for, for any element type.

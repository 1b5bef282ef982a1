# workspace_slide

The decisions behind an animated workspace change: the windows of the workspace that is left slide
off one side of the monitor, and those of the next one slide in from the other. While they move,
each window is cloaked and a live thumbnail of it, its ghost, moves in its place.

`src/` decides and is verified with Verus. It never calls the window system. Each step of a task or
of a slide gives the calls to make, whose results do not matter, and one question; the answer decides
the next step.

| module | what it holds |
| --- | --- |
| `geometry` | rects, the part of a window that a monitor shows, the offset of a workspace change |
| `ghost` | ghosts, reveal overlays, and the commands that their owner thread carries out |
| `owner`, `create`, `overlay`, `frame`, `task` | how the owner carries a command out, and its loop |
| `registry` | which slide drives which window, whose events are ignored, what is running |
| `settings`, `settle` | when slides run, and how one is finished before the next |
| `window` | one window of a slide, and how it is put back |
| `dispatcher`, `phases`, `run` | a whole slide: its state, its rules, its steps |
| `course`, `accounts`, `travel` | what holds of a whole slide, however its questions are answered |

`app/` makes the calls: it holds the owner thread and its channels, the locks around the shared
state, the clock, the easing of the fade, and the Windows calls.

Times are nanoseconds. A coordinate or a deadline that would leave the range of its type is found
beforehand by the functions whose names begin with `is_`.

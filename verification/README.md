# termwindow_render

Frame pacing and paint scheduling for a GPU rendered terminal window.

`src/` is a verified library. It decides; it does not act. Where an operation
alternates between deciding and acting, a function takes the event that just
happened and returns the action to perform next.

| module          | decides                                                        |
|-----------------|----------------------------------------------------------------|
| `frame_pacing`  | how long to sleep after a frame                                |
| `frame_timing`  | which intervals between frames count, and their jitter         |
| `precise_timer` | how to sleep precisely on Windows                              |
| `timer_support` | whether Windows has high-resolution timers, found out once     |
| `draw`          | what a frame draws, how it is presented, how it is paced       |
| `paint`         | passes, recovery from a full texture atlas, animation timers   |
| `paint_pass`    | the order of one pass: background, panes, splits, tab bar      |
| `modal`         | the modal on top of it all                                     |
| `term_window`   | the state that these share                                     |
| `trace`         | runs of state machines, which the laws are about               |

`app/` performs the actions: it reads the clock, sleeps, reports metrics, and
talks to WebGPU, OpenGL and Windows.

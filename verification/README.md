# AssetView

A quick desktop viewer for pictures and videos: a folder tree, a grid of thumbnails, a view of
one medium with a filmstrip, and a slideshow.

## Layout

- `src/` is the library. It holds the state of the viewer and its rules, with contracts that
  Verus proves. It does no input or output of its own: `work::Effect` lists what it asks for.
- `app/` is the program: the window, the folders on disk, the settings file, the table of
  thumbnails, the loader threads, drag and drop.
- `tests/` run the library.

## Where to find what

| Module | What it holds |
| --- | --- |
| `text`, `path`, `media` | texts, paths as components, kinds of media and their labels |
| `pathmap`, `sort` | maps and sets keyed by paths, stable sorting |
| `scan`, `diff`, `work` | what a scan of folders finds, and what changed since the last one |
| `reading` | folders as they are read, and what holds of their scans as a whole |
| `index`, `grid`, `tree` | all media in order, the rows of the grid, the folder tree |
| `loader`, `picture`, `thumbs`, `cache` | the queue of thumbnails, their pixels, and their table |
| `history`, `recent`, `settings`, `appdata`, `log` | what is remembered, and how it is written |
| `slideshow`, `single`, `streak` | the slideshow, one medium alone, the scroll streak |
| `os_dnd`, `pixels` | files dragged out of the window, bitmaps and the clipboard |
| `viewer`, `actions`, `frames`, `start` | the viewer itself, and each thing that can happen to it |
| `laws`, `steady` | what holds of the viewer as a whole, and what every step of it keeps |

The viewer works on `viewer::AppSpec`, its mathematical model. Every method of
`viewer::PicViewApp` states the new model as a function of the old one.

# cosmic workspaces overview: verified view decisions

The workspaces overview draws, on every output, a sidebar of workspaces, a search
bar with launcher results and previews of the windows. This crate holds the
decisions behind that view, proved with Verus:

- `src/model.rs`: plain-value descriptions of workspaces, windows, drags and drop
  targets (Wayland objects become integer ids).
- `src/sidebar.rs`: the sidebar's items while nothing, a window or a workspace is
  dragged, and the pin button, item and drag-source decisions of each entry.
- `src/previews.rs`: which windows an output previews and how each preview is marked.
- `src/thumbnail.rs`: the frame of a workspace thumbnail for any capture size and
  output transform.
- `src/overview.rs`: the drag split, the workspaces holding windows, the search bar,
  the launcher rows and the arrangement of the sections per layout.
- `src/surface.rs`: all of the above for one output surface at once.

`app/` draws the widgets with libcosmic from these plans. Lengths in pixels are
floating point and are computed there from the proportions the library returns.

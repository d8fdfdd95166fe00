# wallpaper_desktop

A desktop wallpaper manager: it gathers 4K wallpapers from online providers
(Wallhaven, Openverse, Wikimedia Commons, the Art Institute of Chicago,
TheGamesDB) and from local folders, keeps them in a catalog, rotates them on a
schedule, and can span one image across several monitors.

## Layout

- `src/` is the library, written in Verus. The rules and algorithms stand there
  with contracts: catalog search plans, identity, exclusion and merge rules for
  imported records, rotation and shuffle rounds, scheduler pause rules and run
  records, settings validation, monitor layout and the spanning plan, image
  adaptation plans, cache cleanup order, provider request parameters, response
  mapping and download refusals, fair interleaving of provider results, URL
  normalisation, the local folder index, and which recorded wallpaper
  assignments to restore after a desktop transition. Public proof functions
  state the laws that tie these operations together.
- `app/` is the program around the library: the command line, SQLite storage,
  HTTP requests, file system work, image decoding and pixel work, and the
  scheduler loop that performs the actions the library decides on. Some rules
  still live there as SQL: which cache files are removable, which records a
  refresh finds by provider source, URL or hash, and when a schedule is next due.
- `tests/` runs the library on concrete values.

## What this build does not include

- No Windows desktop adapter. It would need the `windows` crate, which this
  project does not depend on; on platforms other than macOS the application
  stops with a platform error. The library's `platform::restoration_plan` holds
  the adapter's restore decision.
- No smart collections. Manual collections can be created, listed, updated,
  deleted, have members added and removed, and resolve into one candidate set;
  saving or previewing a smart collection rule is not available.
- Several desktop commands have no command-line form: previous and skip
  wallpaper, pausing and resuming the scheduler, duplicate groups, provider
  status and wallpaper sources.
- No desktop window, tray or login item. The Tauri shell is absent; a command
  line stands in for the window's commands, and the settings' auto-start flag is
  saved but not registered with the operating system.

# wally

A wallpaper downloader for Wallhaven and Konachan, with a terminal
browser, a random mode, a download history and saved download folders.

- `src/` is the verified library: search queries and the page-by-page
  search state machines, retry decisions, history and saved-location
  lists, file names and paths, the browser's state and key handling, and
  the choice of desktop background tool. Contracts and laws are checked
  by Verus.
- `app/` is the program around it: command line, prompts, HTTP requests,
  files, the terminal interface and running background tools.
- `tests/` runs the library on concrete values.

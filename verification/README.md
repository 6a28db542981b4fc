# moodle-tui

A terminal client for Moodle: sign in, see upcoming assignments and enrolled courses,
browse a course's sections and modules, open assignments, take quizzes, and let plugins
fill in quiz answers.

## Layout

- `src/` — the verified library (Verus). It holds the screen state and every decision the
  client makes: key handling for each screen, what each reply from a background task does
  to the state, the course tree and the content finder, the settings rows, the plugin
  manifest and settings rules, the HTML readers for question text and answer controls,
  the readers for Moodle's JSON replies, and the text and number helpers they need. Each
  public function states its result in its `ensures`; laws that relate several functions
  are public proof functions named `law_*`.
- `tests/` — tests of the library on concrete values.
- `app/` — the program around the library: the terminal and event loop (crossterm,
  ratatui, tokio), HTTP requests to Moodle (reqwest), files under the configuration
  directory, the secret store, running plugin processes, the browser and clipboard, and
  the fuzzy ranking of courses, which works on floating-point scores.

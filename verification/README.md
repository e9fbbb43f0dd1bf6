# deadlocked

Verified core of an overlay and aiming assistant for a first-person game.

- `src/` is the library, checked by Verus: the map-geometry backend order and
  status reports (`geometry`), the binary scene-description reader (`dmx`,
  `pod`), collision-triangle extraction (`mesh`), the sound marks of the
  overlay (`sounds`), the library folders of the Steam configuration
  (`steam`), targeting decisions (`targeting`), start-up switches and
  backend choice (`launch`), status reports of the game loop (`session`),
  profile names (`profiles`), and the closed choices of the settings
  (`settings`, `entities`, `palette`).
- `tests/` exercises the library on concrete values.
- `app/` is the program around it: command line, files, the extraction
  tool, serialisation and the float geometry of aiming.
